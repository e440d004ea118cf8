//! The capture side: how the packets of an input device reach its transport.
//!
//! A packet that the platform marks silent is queued as zeros, one for every
//! sample it stands for. Any other packet is queued as the canonical samples
//! that the caller made of it. A transport that is full drops what does not
//! fit; the capturing thread never waits for room.

use crate::format::{encoding, encoding_of, StreamFormat};
use crate::transport::{admitted, lemma_pushed_each, pushed_each, SampleSink, SILENCE};
use vstd::prelude::*;

verus! {

/// The flag of a packet that holds no sound.
pub const BUFFER_SILENT: u32 = 0x2;

/// Whether the flags of a packet mark it silent.
pub open spec fn silent(flags: u32) -> bool {
    flags & BUFFER_SILENT != 0
}

/// Whether the flags of a packet mark it silent.
pub fn is_silent(flags: u32) -> (s: bool)
    ensures
        s == silent(flags),
{
    flags & BUFFER_SILENT != 0
}

/// The number of samples in `frames` frames of `channels` channels.
pub fn sample_count(frames: u32, channels: u16) -> (n: u64)
    ensures
        n == frames * channels,
{
    assert(frames * channels <= 0xFFFF_FFFF * 0xFFFF) by (nonlinear_arith)
        requires
            frames <= 0xFFFF_FFFF,
            channels <= 0xFFFF,
    ;
    (frames as u64) * (channels as u64)
}

/// `count` silent samples.
pub open spec fn silence(count: nat) -> Seq<u32> {
    Seq::new(count, |i: int| SILENCE)
}

/// Whether a sink that had `backlog` queued and `room` free places, and then
/// has `backlog_after` and `room_after`, took in `accepted` of the samples
/// `offered` to it one by one. The first samples, as many as there was room
/// for, are always taken in. Where the queue is known, no others are, and
/// the queue holds them after what it held. Where another thread takes
/// samples out, more may have found a place.
pub open spec fn took_in(
    backlog: Option<Seq<u32>>,
    room: nat,
    backlog_after: Option<Seq<u32>>,
    room_after: nat,
    offered: Seq<u32>,
    accepted: nat,
) -> bool {
    &&& admitted(room, offered.len()) <= accepted <= offered.len()
    &&& room_after == room - admitted(room, offered.len())
    &&& match backlog {
        Some(q) => {
            &&& accepted == admitted(room, offered.len())
            &&& backlog_after == Some(q + offered.take(accepted as int))
            &&& (q + offered.take(accepted as int), room_after) == pushed_each(q, room, offered)
        },
        None => backlog_after.is_none(),
    }
}

/// Queues every sample of `samples`, in order, dropping those that find the
/// queue full. Returns how many were taken in.
pub fn push_all<S: SampleSink>(sink: &mut S, samples: &[u32]) -> (accepted: usize)
    ensures
        took_in(
            old(sink).backlog(),
            old(sink).room(),
            final(sink).backlog(),
            final(sink).room(),
            samples@,
            accepted as nat,
        ),
{
    let ghost before = sink.backlog();
    let ghost room = sink.room();
    let mut accepted: usize = 0;
    let mut i: usize = 0;
    proof {
        if let Some(q) = before {
            assert(q + samples@.take(0) =~= q);
        }
    }
    while i < samples.len()
        invariant
            i <= samples@.len(),
            admitted(room, i as nat) <= accepted <= i,
            sink.room() == room - admitted(room, i as nat),
            match before {
                Some(q) => accepted == admitted(room, i as nat) && sink.backlog() == Some(
                    q + samples@.take(accepted as int),
                ),
                None => sink.backlog().is_none(),
            },
        decreases samples@.len() - i,
    {
        let ghost held = sink.backlog();
        let taken = sink.push(samples[i]);
        if taken {
            accepted += 1;
        }
        i += 1;
        proof {
            if let Some(q) = before {
                if taken {
                    assert(q + samples@.take(accepted as int) =~= (q + samples@.take(
                        accepted - 1,
                    )).push(samples@[i - 1]));
                }
            }
        }
    }
    proof {
        if let Some(q) = before {
            lemma_pushed_each(q, room, samples@);
        }
    }
    accepted
}

/// Queues `count` silent samples, dropping those that find the queue full.
/// Returns how many were taken in.
pub fn push_silence<S: SampleSink>(sink: &mut S, count: u64) -> (accepted: u64)
    ensures
        took_in(
            old(sink).backlog(),
            old(sink).room(),
            final(sink).backlog(),
            final(sink).room(),
            silence(count as nat),
            accepted as nat,
        ),
{
    let ghost before = sink.backlog();
    let ghost room = sink.room();
    let ghost zeros = silence(count as nat);
    let mut accepted: u64 = 0;
    let mut i: u64 = 0;
    proof {
        if let Some(q) = before {
            assert(q + zeros.take(0) =~= q);
        }
    }
    while i < count
        invariant
            i <= count,
            zeros == silence(count as nat),
            admitted(room, i as nat) <= accepted <= i,
            sink.room() == room - admitted(room, i as nat),
            match before {
                Some(q) => accepted == admitted(room, i as nat) && sink.backlog() == Some(
                    q + zeros.take(accepted as int),
                ),
                None => sink.backlog().is_none(),
            },
        decreases count - i,
    {
        let taken = sink.push(SILENCE);
        if taken {
            accepted += 1;
        }
        i += 1;
        proof {
            if let Some(q) = before {
                if taken {
                    assert(q + zeros.take(accepted as int) =~= (q + zeros.take(accepted - 1)).push(
                        SILENCE,
                    ));
                }
            }
        }
    }
    proof {
        if let Some(q) = before {
            lemma_pushed_each(q, room, zeros);
        }
    }
    accepted
}

/// The samples that a packet stands for: zeros for every sample of a silent
/// packet, nothing for a packet in an encoding that the pipelines do not
/// read, and otherwise its converted samples.
pub open spec fn packet_samples(
    format: StreamFormat,
    flags: u32,
    frames: u32,
    converted: Seq<u32>,
) -> Seq<u32> {
    if silent(flags) {
        silence((frames * format.channels) as nat)
    } else if encoding(format).is_none() {
        Seq::<u32>::empty()
    } else {
        converted
    }
}

/// Queues one captured packet of `frames` frames. `converted` holds the
/// canonical samples made of the packet's data; it is not read for a silent
/// packet. Returns how many samples were taken in.
pub fn capture_packet<S: SampleSink>(
    sink: &mut S,
    format: &StreamFormat,
    flags: u32,
    frames: u32,
    converted: &[u32],
) -> (accepted: u64)
    ensures
        took_in(
            old(sink).backlog(),
            old(sink).room(),
            final(sink).backlog(),
            final(sink).room(),
            packet_samples(*format, flags, frames, converted@),
            accepted as nat,
        ),
{
    if is_silent(flags) {
        push_silence(sink, sample_count(frames, format.channels))
    } else if encoding_of(format).is_none() {
        proof {
            if let Some(q) = sink.backlog() {
                assert(q + Seq::<u32>::empty().take(0) =~= q);
            }
        }
        0
    } else {
        push_all(sink, converted) as u64
    }
}

} // verus!
