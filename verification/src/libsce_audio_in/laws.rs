//! What capture ports are opened with, and what a capture leaves in memory.
use vstd::prelude::*;
use crate::agc::effects::{changed_only, lemma_put_changes_only};
use crate::context::{arg, Machine};
use crate::libsce_audio_in::{
    effect, free_port, lemma_free_port, open, silence, AudioInExport, Delayed,
};
use crate::mem::{law_put_keeps_mapping, mapped, put};
use crate::pace::duration;
use crate::registry::Reply;

verus! {

/// The machine behind a call of an export, and the value that the call returns.
pub open spec fn returned(e: AudioInExport, m: Machine, a: Seq<u64>) -> (Machine, u64) {
    let (after, reply) = effect(e, m, a);
    (after, reply->Return_0)
}

/// The machine behind a call of an export, and what its caller is delayed by.
pub open spec fn asked(e: AudioInExport, m: Machine, a: Seq<u64>) -> (Machine, Delayed) {
    let (after, reply) = effect(e, m, a);
    (after, reply->Delayed_0)
}

/// Every one of the eight ports is open.
pub open spec fn all_open(m: Machine) -> bool {
    forall|p: u64| p < 8 ==> #[trigger] m.audio_in.dom().contains(p)
}

/// An open takes a mono (0) or stereo (2) format, a frequency and a grain, none of
/// them zero, and a free port, of which there are eight. The port captures that
/// grain at that frequency. Its handle carries a mark, the low 15 bits of the type,
/// and the port's number.
pub proof fn law_opened_port(m: Machine, a: Seq<u64>)
    ensures
        effect(AudioInExport::Init, m, a) == (m, Reply::Return(0)),
        ({
            let (after, r) = returned(AudioInExport::Open, m, a);
            let format = arg(a, 5) == 0 || arg(a, 5) == 2;
            let frequency = arg(a, 4) as u32;
            let grain = arg(a, 3) as u32;
            let port = (r % 0x1_0000) as u64;
            &&& !format ==> r == 0x8026_0106 && after == m
            &&& format && frequency == 0 ==> r == 0x8026_0103 && after == m
            &&& format && frequency != 0 && grain == 0 ==> r == 0x8026_0106 && after == m
            &&& format && frequency != 0 && grain != 0 && all_open(m) ==> r == 0x8026_0107 && after
                == m
            &&& format && frequency != 0 && grain != 0 && !all_open(m) ==> {
                &&& r == (0x3000_0000u64 | ((arg(a, 1) & 0x7FFF) << 16)) + port
                &&& port < 8
                &&& !m.audio_in.dom().contains(port)
                &&& after.audio_in.dom().contains(port)
                &&& after.audio_in[port].grain == grain
                &&& after.audio_in[port].channels == (if arg(a, 5) == 0 {
                    1u32
                } else {
                    2
                })
                &&& after.audio_in[port].period_ns == duration(grain, frequency) as u64
                &&& after.mem == m.mem
                &&& forall|p: u64|
                    p != port && m.audio_in.dom().contains(p) ==> #[trigger] after.audio_in[p]
                        == m.audio_in[p]
            }
        }),
{
    lemma_free_port(m.audio_in, 0);
    if let Some(p) = free_port(m.audio_in, 0) {
        let kind = arg(a, 1);
        assert(!all_open(m)) by {
            assert(!m.audio_in.dom().contains(p));
        }
        assert(p < 8 ==> {
            &&& 0x3000_0000u64 | ((kind & 0x7FFF) << 16) | p == (0x3000_0000u64 | ((kind & 0x7FFF)
                << 16)) + p
            &&& (0x3000_0000u64 | ((kind & 0x7FFF) << 16) | p) % 0x1_0000 == p
        }) by (bit_vector);
    } else {
        assert(all_open(m));
    }
}

/// A capture fills the caller's buffer with silence, two bytes for every sample of
/// every channel, answers the grain, and takes as long as the grain lasts, at most a
/// tenth of a second; no other byte changes. An unknown port, a null or unmapped
/// buffer, and more than a mebibyte are errors that change nothing.
pub proof fn law_capture(m: Machine, a: Seq<u64>)
    ensures
        ({
            let (after, d) = asked(AudioInExport::Input, m, a);
            let id = arg(a, 0) & 0xFFFF;
            let p = m.audio_in[id];
            let n = 2 * (p.grain * p.channels);
            let known = m.audio_in.dom().contains(id);
            let at = arg(a, 1) as int;
            &&& !known ==> d.code == 0x8026_0101 && after == m && d.sleep_ns == 0
            &&& known && at == 0 ==> d.code == 0x8026_0105 && after == m && d.sleep_ns == 0
            &&& known && at != 0 && n > 0x10_0000 ==> d.code == 0x8026_0106 && after == m
                && d.sleep_ns == 0
            &&& known && at != 0 && n <= 0x10_0000 && !mapped(m.mem, at, n as nat) ==> d.code
                == 0x8026_0105 && after == m && d.sleep_ns == 0
            &&& known && at != 0 && n <= 0x10_0000 && mapped(m.mem, at, n as nat) ==> {
                &&& d.code == p.grain
                &&& d.sleep_ns == (if p.period_ns < 100_000_000 {
                    p.period_ns
                } else {
                    100_000_000
                })
                &&& forall|i: int| 0 <= i < n ==> #[trigger] after.mem[at + i] == 0
                &&& changed_only(m.mem, after.mem, at, n)
                &&& after.audio_in == m.audio_in
            }
        }),
{
    let id = arg(a, 0) & 0xFFFF;
    let p = m.audio_in[id];
    let at = arg(a, 1) as int;
    assert(p.grain * p.channels * 2 == 2 * (p.grain * p.channels)) by (nonlinear_arith);
    assert(p.grain * p.channels >= 0) by (nonlinear_arith);
    let n = 2 * (p.grain * p.channels);
    let zeros = silence(n as nat);
    lemma_put_changes_only(m.mem, at, zeros);
    law_put_keeps_mapping(m.mem, at, zeros);
    if mapped(m.mem, at, n as nat) {
        let after = put(m.mem, at, zeros).0;
        assert forall|i: int| 0 <= i < n implies #[trigger] after[at + i] == 0 by {
            assert(m.mem.dom().contains(at + i));
        }
    }
}

/// A close gives back the port of its handle, and no other; a port that is not open
/// cannot be closed. There is no device behind any port.
pub proof fn law_closed_port(m: Machine, a: Seq<u64>, k: u64)
    ensures
        ({
            let (after, r) = returned(AudioInExport::Close, m, a);
            let id = arg(a, 0) & 0xFFFF;
            &&& !m.audio_in.dom().contains(id) ==> r == 0x8026_0109 && after == m
            &&& m.audio_in.dom().contains(id) ==> r == 0 && !after.audio_in.dom().contains(id)
            &&& k != id && m.audio_in.dom().contains(k) ==> after.audio_in.dom().contains(k)
                && after.audio_in[k] == m.audio_in[k]
            &&& m.audio_in.dom().contains(id) ==> effect(AudioInExport::GetSilentState, m, a) == (
                m,
                Reply::Return(1),
            )
            &&& !m.audio_in.dom().contains(id) ==> effect(AudioInExport::GetSilentState, m, a) == (
                m,
                Reply::Return(0x8026_0101),
            )
        }),
{
}

} // verus!
