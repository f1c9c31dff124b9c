//! Per-viewer snapshots and their chunked transport. Workers receive an
//! agent-scoped snapshot; a serialized snapshot larger than
//! `CHUNK_THRESHOLD` bytes is split into frames of at most `CHUNK_SIZE`
//! bytes, each cut on a UTF-8 character boundary, whose payloads
//! concatenate back to the original text.

use vstd::prelude::*;
use vstd::utf8::{
    valid_utf8, encode_utf8, is_continuation_byte, is_char_boundary, length_of_first_scalar,
    pop_first_scalar, decode_utf8,
};
use vstd::string::StringSliceAdditionalSpecFns;
use crate::state::{AvatarView, WorldView, avatar_index};

verus! {

broadcast use vstd::utf8::group_utf8_lib;

/// At or below this many bytes a snapshot travels as a single frame.
pub const CHUNK_THRESHOLD: usize = 262144;

/// Bytes of UTF-8 JSON per chunk payload, at most.
pub const CHUNK_SIZE: usize = 65536;

/// Same-room peers in a worker snapshot, at most.
pub const PEER_CAP: usize = 16;

/// Recent messages in a worker snapshot, at most.
pub const MESSAGE_CAP: usize = 20;

#[derive(Debug)]
pub struct MessageStub {
    pub id: String,
    pub author_id: String,
    pub body: String,
    pub kind: String,
    pub ts: i64,
}

impl Clone for MessageStub {
    fn clone(&self) -> (r: Self)
        ensures
            r == *self,
    {
        MessageStub {
            id: self.id.clone(),
            author_id: self.author_id.clone(),
            body: self.body.clone(),
            kind: self.kind.clone(),
            ts: self.ts,
        }
    }
}

#[derive(Debug)]
pub struct ChunkFrame {
    pub seq: u32,
    pub total: u32,
    pub payload: String,
}

// ───────────────────────────── chunking ─────────────────────────────

/// From a tentative cut `e`, step back while `e` would split a character.
pub open spec fn back_off(r: Seq<u8>, e: int) -> int
    decreases e,
{
    if 0 < e < r.len() && is_continuation_byte(r[e]) {
        back_off(r, e - 1)
    } else {
        e
    }
}

/// Where the first chunk of `r` ends.
pub open spec fn chunk_end(r: Seq<u8>) -> int {
    back_off(r, if r.len() < CHUNK_SIZE { r.len() as int } else { CHUNK_SIZE as int })
}

/// `r` cut into chunks of at most `CHUNK_SIZE` bytes on character
/// boundaries, front to back.
pub open spec fn chunks(r: Seq<u8>) -> Seq<Seq<u8>>
    decreases r.len(),
{
    if r.len() == 0 {
        Seq::empty()
    } else {
        let e = chunk_end(r);
        if e <= 0 || e > r.len() {
            seq![r]
        } else {
            seq![r.take(e)] + chunks(r.skip(e))
        }
    }
}

/// The payload bytes of the frames a serialized snapshot is sent as.
pub open spec fn chunk_json_spec(b: Seq<u8>) -> Seq<Seq<u8>> {
    if b.len() <= CHUNK_THRESHOLD {
        seq![b]
    } else {
        chunks(b)
    }
}

/// The largest text `chunk_json` numbers its frames for without the `u32`
/// frame counter overflowing.
pub open spec fn chunkable_len(n: int) -> bool {
    n <= 65533 * 4294967295
}

pub open spec fn frame_bytes(frames: Seq<ChunkFrame>) -> Seq<Seq<u8>> {
    frames.map_values(|f: ChunkFrame| encode_utf8(f.payload@))
}

/// Inside valid UTF-8 there is a character boundary at most 3 bytes
/// before any position.
pub proof fn lemma_boundary_near(r: Seq<u8>, e: int)
    requires
        valid_utf8(r),
        0 <= e <= r.len(),
    ensures
        exists|j: int| e - 3 <= j <= e && #[trigger] is_char_boundary(r, j),
    decreases r.len(),
{
    if e == 0 {
        assert(is_char_boundary(r, 0));
    } else {
        let l1 = length_of_first_scalar(r);
        if e < l1 {
            assert(is_char_boundary(r, 0));
        } else {
            let tail = pop_first_scalar(r);
            assert(tail.len() == r.len() - l1);
            lemma_boundary_near(tail, e - l1);
            let j = choose|j: int| e - l1 - 3 <= j <= e - l1 && #[trigger] is_char_boundary(tail, j);
            assert(is_char_boundary(r, j + l1));
        }
    }
}

/// The first character's end is a boundary, 1 to 4 bytes in.
pub proof fn lemma_first_boundary(r: Seq<u8>)
    requires
        valid_utf8(r),
        r.len() > 0,
    ensures
        1 <= length_of_first_scalar(r) <= 4,
        length_of_first_scalar(r) <= r.len(),
        is_char_boundary(r, length_of_first_scalar(r)),
{
    let l1 = length_of_first_scalar(r);
    let tail = pop_first_scalar(r);
    assert(is_char_boundary(tail, 0));
}

/// Stepping back from `e` stops at the last boundary at or before it.
pub proof fn lemma_back_off(r: Seq<u8>, e: int, j: int)
    requires
        valid_utf8(r),
        0 < j <= e <= r.len(),
        is_char_boundary(r, j),
    ensures
        j <= back_off(r, e) <= e,
        is_char_boundary(r, back_off(r, e)),
    decreases e,
{
    if e < r.len() && is_continuation_byte(r[e]) {
        if e == j {
            assert(!is_continuation_byte(r[e]));
        }
        lemma_back_off(r, e - 1, j);
    } else {
        if e < r.len() {
            assert(is_char_boundary(r, e));
        } else {
            assert(is_char_boundary(r, r.len() as int));
        }
    }
}

/// The payloads of `chunks(r)` concatenate to `r`.
pub proof fn lemma_chunks_flatten(r: Seq<u8>)
    ensures
        chunks(r).flatten() == r,
    decreases r.len(),
{
    if r.len() > 0 {
        let e = chunk_end(r);
        if e <= 0 || e > r.len() {
            assert(seq![r].flatten() =~= r) by {
                reveal_with_fuel(Seq::<_>::flatten, 2);
                assert(seq![r].drop_first() =~= Seq::<Seq<u8>>::empty());
            }
        } else {
            lemma_chunks_flatten(r.skip(e));
            let c = seq![r.take(e)] + chunks(r.skip(e));
            assert(c[0] == r.take(e));
            assert(c.drop_first() =~= chunks(r.skip(e)));
            assert(r.take(e) + r.skip(e) =~= r);
        }
    }
}

/// Split a serialized snapshot into frames. At most `CHUNK_THRESHOLD`
/// bytes travel as one frame `seq 0 / total 1`; a longer text is cut into
/// payloads of at most `CHUNK_SIZE` bytes, each ending on a character
/// boundary, numbered in order with the frame count as `total`.
pub fn chunk_json(json: &str) -> (frames: Vec<ChunkFrame>)
    requires
        chunkable_len(json.spec_bytes().len() as int),
    ensures
        frame_bytes(frames@) == chunk_json_spec(json.spec_bytes()),
        forall|i: int|
            0 <= i < frames@.len() ==> (#[trigger] frames@[i]).seq == i && frames@[i].total
                == frames@.len(),
{
    let ghost b = json.spec_bytes();
    let bytes = json.as_bytes();
    let total_bytes = bytes.len();
    if total_bytes <= CHUNK_THRESHOLD {
        let f = ChunkFrame { seq: 0, total: 1, payload: json.to_owned() };
        let frames = vec![f];
        proof {
            assert(frames@[0].payload@ == json@);
            assert(frame_bytes(frames@)[0] == b);
            assert(frame_bytes(frames@) =~= seq![b]);
            assert(chunk_json_spec(b) == seq![b]);
        }
        return frames;
    }
    let mut frames: Vec<ChunkFrame> = Vec::new();
    let mut rest: &str = json;
    let mut start: usize = 0;
    let mut seq: u32 = 0;
    let len = bytes.len();
    proof {
        assert(b.skip(0) =~= b);
        assert(frame_bytes(frames@) =~= Seq::<Seq<u8>>::empty());
        assert(Seq::<Seq<u8>>::empty() + chunks(b) =~= chunks(b));
    }
    while start < len
        invariant
            bytes@ == b,
            len == b.len(),
            valid_utf8(b),
            chunkable_len(b.len() as int),
            0 <= start <= len,
            rest.spec_bytes() == b.skip(start as int),
            chunks(b) == frame_bytes(frames@) + chunks(b.skip(start as int)),
            seq == frames@.len(),
            start < len ==> (seq as int) * 65533 <= start,
            forall|i: int| 0 <= i < frames@.len() ==> (#[trigger] frames@[i]).seq == i,
        decreases len - start,
    {
        let ghost r = b.skip(start as int);
        let limit: usize = if len - start < CHUNK_SIZE { len } else { start + CHUNK_SIZE };
        let mut end: usize = limit;
        proof {
            lemma_first_boundary(r);
            lemma_boundary_near(r, (limit - start) as int);
        }
        let ghost l1 = length_of_first_scalar(r);
        let ghost jn = choose|j: int| (limit - start) - 3 <= j <= (limit - start) && #[trigger] is_char_boundary(r, j);
        let ghost jlow = if jn > l1 { jn } else { l1 };
        proof {
            assert(is_char_boundary(r, jlow));
            lemma_back_off(r, (limit - start) as int, jlow);
        }
        while end < len && (bytes[end] & 0xC0u8) == 0x80u8
            invariant
                bytes@ == b,
                len == b.len(),
                r == b.skip(start as int),
                start < len,
                start + jlow <= end <= limit,
                0 < jlow,
                is_char_boundary(r, jlow),
                valid_utf8(r),
                back_off(r, (limit - start) as int) == back_off(r, (end - start) as int),
            decreases end,
        {
            let byte = bytes[end];
            proof {
                assert(((byte & 0xC0u8) == 0x80u8) <==> (0x80u8 <= byte && byte <= 0xbfu8)) by (bit_vector);
                assert(r[(end - start) as int] == byte);
                if end - start == jlow {
                    assert(!is_continuation_byte(r[jlow]));
                }
            }
            end -= 1;
        }
        proof {
            if end < len {
                let byte = bytes[end as int];
                assert(((byte & 0xC0u8) == 0x80u8) <==> (0x80u8 <= byte && byte <= 0xbfu8)) by (bit_vector);
                assert(r[(end - start) as int] == byte);
            }
            assert(back_off(r, (end - start) as int) == (end - start) as int);
            assert(chunk_end(r) == (end - start) as int);
            assert(is_char_boundary(rest.spec_bytes(), (end - start) as int));
        }
        let (head, tail) = rest.split_at(end - start);
        let payload = head.to_owned();
        let ghost old_frames = frame_bytes(frames@);
        frames.push(ChunkFrame { seq, total: 0, payload });
        proof {
            assert(frame_bytes(frames@) =~= old_frames.push(r.take((end - start) as int)));
            assert(r.skip((end - start) as int) =~= b.skip(end as int));
            assert(chunks(r) == seq![r.take((end - start) as int)] + chunks(r.skip((end - start) as int)));
            assert(old_frames + chunks(r) =~= frame_bytes(frames@) + chunks(b.skip(end as int)));
            assert(tail.spec_bytes() =~= b.skip(end as int));
        }
        proof {
            if end < len {
                if limit == len {
                    assert(back_off(r, (limit - start) as int) == r.len());
                }
                assert(limit == start + CHUNK_SIZE);
                assert(end - start >= CHUNK_SIZE - 3);
                assert((seq as int + 1) * 65533 == (seq as int) * 65533 + 65533) by (nonlinear_arith);
            }
        }
        rest = tail;
        start = end;
        seq = seq + 1;
    }
    proof {
        assert(b.skip(len as int) =~= Seq::<u8>::empty());
        assert(frame_bytes(frames@) + Seq::<Seq<u8>>::empty() =~= frame_bytes(frames@));
    }
    let total = frames.len() as u32;
    let mut k: usize = 0;
    let ghost fb = frame_bytes(frames@);
    while k < frames.len()
        invariant
            0 <= k <= frames@.len(),
            total == frames@.len(),
            frame_bytes(frames@) == fb,
            forall|i: int| 0 <= i < frames@.len() ==> (#[trigger] frames@[i]).seq == i,
            forall|i: int| 0 <= i < k ==> (#[trigger] frames@[i]).total == total,
        decreases frames.len() - k,
    {
        let mut f = frames.remove(k);
        f.total = total;
        frames.insert(k, f);
        proof {
            assert(frame_bytes(frames@) =~= fb);
        }
        k += 1;
    }
    frames
}

/// Why frames could not be reassembled.
#[derive(Debug, Clone, Copy, PartialEq, Eq, Structural)]
pub enum ReassembleError {
    /// No frames at all.
    EmptyFrames,
    /// The frame count differs from the first frame's `total`.
    CountMismatch,
}

/// The concatenated payload text of `frames`.
pub open spec fn joined_payloads(frames: Seq<ChunkFrame>) -> Seq<char> {
    frames.map_values(|f: ChunkFrame| f.payload@).flatten()
}

/// Concatenate the payloads of a complete frame sequence. The text is
/// parsed by the receiver.
pub fn reassemble_payloads(frames: &Vec<ChunkFrame>) -> (r: Result<String, ReassembleError>)
    ensures
        frames@.len() == 0 ==> r == Err::<String, ReassembleError>(ReassembleError::EmptyFrames),
        frames@.len() > 0 && frames@.len() != frames@[0].total ==> r == Err::<String, ReassembleError>(
            ReassembleError::CountMismatch,
        ),
        frames@.len() > 0 && frames@.len() == frames@[0].total ==> (r matches Ok(s) && s@
            == joined_payloads(frames@)),
{
    if frames.len() == 0 {
        return Err(ReassembleError::EmptyFrames);
    }
    let total = frames[0].total;
    if frames.len() as u64 != total as u64 {
        return Err(ReassembleError::CountMismatch);
    }
    let mut combined = String::new();
    let mut i: usize = 0;
    let ghost pv = frames@.map_values(|f: ChunkFrame| f.payload@);
    proof {
        assert(pv.take(0).flatten() =~= Seq::<char>::empty()) by {
            assert(pv.take(0) =~= Seq::<Seq<char>>::empty());
        }
    }
    while i < frames.len()
        invariant
            0 <= i <= frames@.len(),
            pv == frames@.map_values(|f: ChunkFrame| f.payload@),
            combined@ == pv.take(i as int).flatten(),
        decreases frames.len() - i,
    {
        combined.append(frames[i].payload.as_str());
        proof {
            lemma_flatten_push(pv.take(i as int), pv[i as int]);
            assert(pv.take(i as int + 1) =~= pv.take(i as int).push(pv[i as int]));
        }
        i += 1;
    }
    proof {
        assert(pv.take(frames@.len() as int) =~= pv);
    }
    Ok(combined)
}

pub proof fn lemma_flatten_push<A>(s: Seq<Seq<A>>, x: Seq<A>)
    ensures
        s.push(x).flatten() == s.flatten() + x,
    decreases s.len(),
{
    if s.len() == 0 {
        assert(s.push(x).drop_first() =~= Seq::<Seq<A>>::empty());
        assert(s.push(x).drop_first().flatten() =~= Seq::<A>::empty());
        assert(s.push(x).flatten() =~= x);
        assert(s.flatten() + x =~= x);
    } else {
        lemma_flatten_push(s.drop_first(), x);
        assert(s.push(x).drop_first() =~= s.drop_first().push(x));
        assert(s.push(x)[0] == s[0]);
        assert(s[0] + (s.drop_first().flatten() + x) =~= (s[0] + s.drop_first().flatten()) + x);
    }
}

// ───────────────────────────── worker snapshot ─────────────────────────────

/// An agent-scoped snapshot of the world.
#[derive(Debug)]
pub struct WorkerSnapshot<'a> {
    pub agent_id: &'a str,
    pub startup_id: &'a str,
    pub own_avatar: Option<&'a AvatarView>,
    pub peers_in_room: Vec<&'a AvatarView>,
    pub recent_messages: Vec<MessageStub>,
    pub backend_catalog: &'a Vec<(String, serde_json::Value)>,
    pub current_task_id: Option<String>,
}

pub open spec fn peer_filter(agent_id: Seq<char>, room: Seq<char>) -> spec_fn(AvatarView) -> bool {
    |a: AvatarView| a.agent_id@ != agent_id && a.room_id@ == room
}

pub open spec fn deref_avatars(v: Seq<&AvatarView>) -> Seq<AvatarView> {
    v.map_values(|a: &AvatarView| *a)
}

/// Peers of `agent_id` in room `room`, in world order.
pub open spec fn room_peers(avs: Seq<AvatarView>, agent_id: Seq<char>, room: Seq<char>) -> Seq<AvatarView> {
    avs.filter(peer_filter(agent_id, room))
}

/// A filtered prefix is a prefix of the filtered whole.
pub proof fn lemma_filter_prefix_take<A>(s: Seq<A>, f: spec_fn(A) -> bool, i: int)
    requires
        0 <= i <= s.len(),
    ensures
        s.take(i).filter(f).len() <= s.filter(f).len(),
        s.filter(f).take(s.take(i).filter(f).len() as int) == s.take(i).filter(f),
    decreases s.len() - i,
{
    if i == s.len() {
        assert(s.take(i) =~= s);
    } else {
        lemma_filter_prefix_take(s, f, i + 1);
        reveal(Seq::filter);
        assert(s.take(i + 1).drop_last() =~= s.take(i));
        assert(s.take(i + 1).last() == s[i]);
        let a = s.take(i).filter(f);
        let b = s.take(i + 1).filter(f);
        if f(s[i]) {
            assert(b == a.push(s[i]));
            assert(s.filter(f).take(a.len() as int) =~= b.take(a.len() as int));
            assert(b.take(a.len() as int) =~= a);
        } else {
            assert(b == a);
        }
    }
}

/// The last `MESSAGE_CAP` messages, in order.
pub open spec fn recent_tail(m: Seq<MessageStub>) -> Seq<MessageStub> {
    if m.len() > MESSAGE_CAP {
        m.skip(m.len() - MESSAGE_CAP)
    } else {
        m
    }
}

/// Build a worker-scoped snapshot: the agent's own avatar, up to
/// `PEER_CAP` other avatars in its room, the last `MESSAGE_CAP` of the
/// supplied messages (which live in storage, not in the world view), the
/// backend catalog and the current task.
pub fn build_worker_snapshot<'a>(
    world: &'a WorldView,
    agent_id: &'a str,
    startup_id: &'a str,
    recent_messages: Vec<MessageStub>,
    current_task_id: Option<String>,
) -> (s: WorkerSnapshot<'a>)
    requires
        world.wf(),
    ensures
        s.agent_id == agent_id,
        s.startup_id == startup_id,
        s.backend_catalog == &world.backend_catalog,
        s.current_task_id == current_task_id,
        match avatar_index(world.avatars@, agent_id@) {
            None => s.own_avatar is None && s.peers_in_room@.len() == 0,
            Some(i) => {
                &&& s.own_avatar == Some(&world.avatars@[i])
                &&& deref_avatars(s.peers_in_room@) == room_peers(world.avatars@, agent_id@, world.avatars@[i].room_id@).take(
                    if room_peers(world.avatars@, agent_id@, world.avatars@[i].room_id@).len() < PEER_CAP {
                        room_peers(world.avatars@, agent_id@, world.avatars@[i].room_id@).len() as int
                    } else {
                        PEER_CAP as int
                    },
                )
            },
        },
        s.recent_messages@ == recent_tail(recent_messages@),
{
    let idx = world.find(agent_id);
    let own_avatar: Option<&'a AvatarView> = match idx {
        Some(i) => Some(&world.avatars[i]),
        None => None,
    };
    let mut peers: Vec<&'a AvatarView> = Vec::new();
    match idx {
        None => {},
        Some(oi) => {
            let room = &world.avatars[oi].room_id;
            let id = agent_id.to_owned();
            let ghost f = peer_filter(agent_id@, room@);
            let ghost all = world.avatars@;
            let mut i: usize = 0;
            proof {
                assert(all.take(0).filter(f) =~= Seq::<AvatarView>::empty()) by {
                    reveal(Seq::filter);
                }
                assert(deref_avatars(peers@) =~= Seq::<AvatarView>::empty());
            }
            while i < world.avatars.len() && peers.len() < PEER_CAP
                invariant
                    0 <= i <= world.avatars@.len(),
                    oi < world.avatars@.len(),
                    all == world.avatars@,
                    id@ == agent_id@,
                    room@ == world.avatars@[oi as int].room_id@,
                    f == peer_filter(agent_id@, room@),
                    deref_avatars(peers@) == all.take(i as int).filter(f),
                    peers@.len() <= PEER_CAP,
                decreases world.avatars.len() - i,
            {
                let a = &world.avatars[i];
                proof {
                    reveal(Seq::filter);
                    assert(all.take(i as int + 1).drop_last() =~= all.take(i as int));
                    assert(all.take(i as int + 1).last() == all[i as int]);
                }
                if a.agent_id != id && a.room_id == *room {
                    let ghost before = deref_avatars(peers@);
                    peers.push(a);
                    proof {
                        assert(deref_avatars(peers@) =~= before.push(*a));
                    }
                }
                i += 1;
            }
            proof {
                lemma_filter_prefix_take(all, f, i as int);
                if i == all.len() {
                    assert(all.take(i as int) =~= all);
                }
            }
        },
    }
    let n = recent_messages.len();
    let recent = if n > MESSAGE_CAP {
        let mut out: Vec<MessageStub> = Vec::new();
        let mut j: usize = n - MESSAGE_CAP;
        let ghost m = recent_messages@;
        while j < n
            invariant
                n > MESSAGE_CAP,
                n - MESSAGE_CAP <= j <= n,
                n == m.len(),
                m == recent_messages@,
                out@ == m.subrange(n - MESSAGE_CAP, j as int),
            decreases n - j,
        {
            let c = recent_messages[j].clone();
            out.push(c);
            proof {
                assert(c == m[j as int]);
                assert(out@ =~= m.subrange(n - MESSAGE_CAP, j as int + 1));
            }
            j += 1;
        }
        proof {
            assert(out@ =~= m.skip(n - MESSAGE_CAP));
        }
        out
    } else {
        recent_messages
    };
    WorkerSnapshot {
        agent_id,
        startup_id,
        own_avatar,
        peers_in_room: peers,
        recent_messages: recent,
        backend_catalog: &world.backend_catalog,
        current_task_id,
    }
}

// ───────────────────────────── round trip ─────────────────────────────

pub proof fn lemma_encode_concat(a: Seq<char>, b: Seq<char>)
    ensures
        encode_utf8(a + b) == encode_utf8(a) + encode_utf8(b),
    decreases a.len(),
{
    if a.len() == 0 {
        assert(a + b =~= b);
        assert(encode_utf8(a) =~= Seq::<u8>::empty());
        assert(Seq::<u8>::empty() + encode_utf8(b) =~= encode_utf8(b));
    } else {
        lemma_encode_concat(a.drop_first(), b);
        assert((a + b).drop_first() =~= a.drop_first() + b);
        assert((a + b)[0] == a[0]);
    }
}

pub proof fn lemma_encode_flatten(ss: Seq<Seq<char>>)
    ensures
        encode_utf8(ss.flatten()) == ss.map_values(|c: Seq<char>| encode_utf8(c)).flatten(),
    decreases ss.len(),
{
    let es = ss.map_values(|c: Seq<char>| encode_utf8(c));
    if ss.len() == 0 {
        assert(es =~= Seq::<Seq<u8>>::empty());
        assert(encode_utf8(Seq::<char>::empty()) =~= Seq::<u8>::empty());
    } else {
        lemma_encode_flatten(ss.drop_first());
        lemma_encode_concat(ss[0], ss.drop_first().flatten());
        assert(es.drop_first() =~= ss.drop_first().map_values(|c: Seq<char>| encode_utf8(c)));
        assert(es[0] == encode_utf8(ss[0]));
    }
}

/// Reassembling the frames of a chunked snapshot gives back the snapshot
/// text byte for byte: there is at least one frame, every frame carries
/// the frame count, and the payloads concatenate to the original.
pub proof fn law_chunk_roundtrip(json: Seq<char>, frames: Seq<ChunkFrame>)
    requires
        frame_bytes(frames) == chunk_json_spec(encode_utf8(json)),
        forall|i: int| 0 <= i < frames.len() ==> (#[trigger] frames[i]).total == frames.len(),
    ensures
        frames.len() > 0,
        frames[0].total == frames.len(),
        joined_payloads(frames) == json,
{
    let b = encode_utf8(json);
    let fb = frame_bytes(frames);
    assert(fb.len() == frames.len());
    if b.len() <= CHUNK_THRESHOLD {
        assert(fb.len() == 1);
    } else {
        assert(chunks(b).len() > 0);
    }
    let pv = frames.map_values(|f: ChunkFrame| f.payload@);
    assert(pv.map_values(|c: Seq<char>| encode_utf8(c)) =~= fb);
    lemma_encode_flatten(pv);
    if b.len() <= CHUNK_THRESHOLD {
        assert(seq![b].flatten() =~= b) by {
            reveal_with_fuel(Seq::<_>::flatten, 2);
            assert(seq![b].drop_first() =~= Seq::<Seq<u8>>::empty());
        }
    } else {
        lemma_chunks_flatten(b);
    }
    assert(encode_utf8(pv.flatten()) == b);
    vstd::utf8::encode_utf8_decode_utf8(pv.flatten());
    vstd::utf8::encode_utf8_decode_utf8(json);
}

/// Every chunk of an oversized snapshot is a non-empty piece of at most
/// `CHUNK_SIZE` bytes of valid UTF-8.
pub proof fn law_chunk_sizes(b: Seq<u8>)
    requires
        valid_utf8(b),
    ensures
        forall|i: int|
            0 <= i < chunks(b).len() ==> 0 < (#[trigger] chunks(b)[i]).len() <= CHUNK_SIZE
                && valid_utf8(chunks(b)[i]),
    decreases b.len(),
{
    if b.len() > 0 {
        let m = if b.len() < CHUNK_SIZE { b.len() as int } else { CHUNK_SIZE as int };
        lemma_first_boundary(b);
        lemma_back_off(b, m, length_of_first_scalar(b));
        let e = chunk_end(b);
        vstd::utf8::valid_utf8_split(b, e);
        assert(b.subrange(0, e) =~= b.take(e));
        assert(b.subrange(e, b.len() as int) =~= b.skip(e));
        law_chunk_sizes(b.skip(e));
        let c = chunks(b);
        assert forall|i: int| 0 <= i < c.len() implies 0 < (#[trigger] c[i]).len() <= CHUNK_SIZE
            && valid_utf8(c[i]) by {
            if i > 0 {
                assert(c[i] == chunks(b.skip(e))[i - 1]);
            }
        }
    }
}

} // verus!
