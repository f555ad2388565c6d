//! The state behind an Art-Net sender: the current DMX buffer of a fixed number of
//! channels, the universe it goes to, the send rate and whether the send loop runs.
//! Sockets, locks and the loop's thread belong to the caller, which asks this state
//! what to send and when to start or stop.

use vstd::prelude::*;
use crate::packet::{artnet_frame, build_artnet_frame, dmx_levels};

verus! {

/// `data` cut or zero-padded to exactly `n` channels.
pub open spec fn fitted(data: Seq<u8>, n: nat) -> Seq<u8> {
    Seq::new(n, |i: int| if i < data.len() { data[i] } else { 0u8 })
}

/// `n` channels at zero.
pub open spec fn dark(n: nat) -> Seq<u8> {
    Seq::new(n, |i: int| 0u8)
}

/// Microseconds between two frames at `fps` frames per second (a rate of 0 counts as 1).
pub open spec fn interval_micros(fps: u32) -> int {
    if fps == 0 {
        1_000_000
    } else {
        1_000_000int / (fps as int)
    }
}

/// A dark buffer has `n` channels, every one of them zero.
pub proof fn lemma_dark_is_zero(n: nat)
    ensures
        dark(n).len() == n,
        forall|i: int| 0 <= i < n ==> #[trigger] dark(n)[i] == 0,
{
}

/// Fitting keeps the first `n` data bytes in place and fills the channels past the data
/// with zeros.
pub proof fn lemma_fitted_channels(data: Seq<u8>, n: nat)
    ensures
        fitted(data, n).len() == n,
        forall|i: int|
            0 <= i < n ==> #[trigger] fitted(data, n)[i] == if i < data.len() {
                data[i]
            } else {
                0u8
            },
{
}

/// The interval is 1,000,000 microseconds divided by the frame rate (a rate of 0 counting
/// as 1), rounded down: `fps` intervals fit in one second, one more does not.
pub proof fn lemma_interval_divides_second(fps: u32)
    ensures
        ({
            let rate: int = if fps == 0 {
                1
            } else {
                fps as int
            };
            &&& interval_micros(fps) * rate <= 1_000_000
            &&& 1_000_000 < (interval_micros(fps) + 1) * rate
        }),
{
    let rate: int = if fps == 0 {
        1
    } else {
        fps as int
    };
    let q = 1_000_000int / rate;
    assert(q == interval_micros(fps));
    assert(q * rate <= 1_000_000 && 1_000_000 < (q + 1) * rate) by (nonlinear_arith)
        requires
            rate >= 1,
            q == 1_000_000int / rate,
    ;
}

/// Levels that `parse_array` made for `n` channels go into a buffer of `n` channels
/// unchanged.
pub proof fn lemma_fitted_levels(input: Seq<i32>, n: nat)
    ensures
        fitted(dmx_levels(input, n), n) == dmx_levels(input, n),
{
    assert(fitted(dmx_levels(input, n), n) =~= dmx_levels(input, n));
}

/// DMX buffer and run state of one Art-Net output.
pub struct ArtNetSender {
    universe: u16,
    packet_size: u16,
    fps: u32,
    data: Vec<u8>,
    running: bool,
}

impl ArtNetSender {
    #[verifier::type_invariant]
    spec fn buffer_matches_size(self) -> bool {
        self.data@.len() == self.packet_size as nat
    }

    /// The DMX channels that the next frame carries.
    pub closed spec fn levels(self) -> Seq<u8> {
        self.data@
    }

    /// The universe frames are addressed to.
    pub closed spec fn spec_universe(self) -> u16 {
        self.universe
    }

    /// The number of channels in the buffer.
    pub closed spec fn spec_packet_size(self) -> u16 {
        self.packet_size
    }

    /// The configured frame rate.
    pub closed spec fn spec_fps(self) -> u32 {
        self.fps
    }

    /// Whether the send loop is meant to be running.
    pub closed spec fn is_running(self) -> bool {
        self.running
    }

    /// A stopped sender whose `packet_size` channels are all zero.
    pub fn new(universe: u16, packet_size: u16, fps: u32) -> (s: Self)
        ensures
            s.spec_universe() == universe,
            s.spec_packet_size() == packet_size,
            s.spec_fps() == fps,
            s.levels() == dark(packet_size as nat),
            s.levels().len() == packet_size,
            forall|i: int| 0 <= i < packet_size ==> #[trigger] s.levels()[i] == 0,
            !s.is_running(),
    {
        let mut data: Vec<u8> = Vec::with_capacity(packet_size as usize);
        let mut i: u16 = 0;
        while i < packet_size
            invariant
                i <= packet_size,
                data@ == dark(i as nat),
            decreases packet_size - i,
        {
            data.push(0);
            i = i + 1;
            assert(data@ =~= dark(i as nat));
        }
        ArtNetSender { universe, packet_size, fps, data, running: false }
    }

    /// Replace the current DMX payload. Excess bytes are dropped and short payloads
    /// are padded with zeros.
    pub fn set(&mut self, data: &[u8])
        ensures
            final(self).levels() == fitted(data@, old(self).spec_packet_size() as nat),
            final(self).levels().len() == old(self).spec_packet_size(),
            forall|i: int|
                0 <= i < old(self).spec_packet_size() ==> #[trigger] final(self).levels()[i] == if i
                    < data@.len() {
                    data@[i]
                } else {
                    0u8
                },
            final(self).spec_universe() == old(self).spec_universe(),
            final(self).spec_packet_size() == old(self).spec_packet_size(),
            final(self).spec_fps() == old(self).spec_fps(),
            final(self).is_running() == old(self).is_running(),
    {
        proof {
            use_type_invariant(&*self);
        }
        let size: usize = self.data.len();
        let n: usize = if data.len() < size {
            data.len()
        } else {
            size
        };
        let mut next: Vec<u8> = Vec::with_capacity(size);
        let mut i: usize = 0;
        while i < size
            invariant
                i <= size,
                n == data@.len() || n == size,
                n <= data@.len(),
                n <= size,
                next@ == fitted(data@, size as nat).take(i as int),
            decreases size - i,
        {
            let b: u8 = if i < n {
                data[i]
            } else {
                0
            };
            next.push(b);
            i = i + 1;
            assert(next@ =~= fitted(data@, size as nat).take(i as int));
        }
        assert(next@ =~= fitted(data@, size as nat));
        self.data = next;
    }

    /// Set every channel to zero and give back the frame to send right away, so the
    /// fixtures go dark even when the send loop is not running.
    pub fn blackout(&mut self) -> (frame: Vec<u8>)
        ensures
            final(self).levels() == dark(old(self).spec_packet_size() as nat),
            frame@ == artnet_frame(old(self).spec_universe(), 0, dark(old(self).spec_packet_size() as nat)),
            final(self).levels().len() == old(self).spec_packet_size(),
            forall|i: int|
                0 <= i < old(self).spec_packet_size() ==> #[trigger] final(self).levels()[i] == 0,
            frame@.len() >= 18,
            forall|i: int| 18 <= i < frame@.len() ==> #[trigger] frame@[i] == 0,
            final(self).spec_universe() == old(self).spec_universe(),
            final(self).spec_packet_size() == old(self).spec_packet_size(),
            final(self).spec_fps() == old(self).spec_fps(),
            final(self).is_running() == old(self).is_running(),
    {
        proof {
            use_type_invariant(&*self);
        }
        let size: usize = self.data.len();
        let mut next: Vec<u8> = Vec::with_capacity(size);
        let mut i: usize = 0;
        while i < size
            invariant
                i <= size,
                next@ == dark(i as nat),
            decreases size - i,
        {
            next.push(0);
            i = i + 1;
            assert(next@ =~= dark(i as nat));
        }
        self.data = next;
        let frame = build_artnet_frame(self.universe, 0, self.data.as_slice());
        proof {
            lemma_dark_is_zero(size as nat);
            crate::packet::lemma_frame_carries_data(self.universe, 0, dark(size as nat));
            let m: int = if size <= 512 {
                size as int
            } else {
                512int
            };
            assert forall|i: int| 18 <= i < frame@.len() implies #[trigger] frame@[i] == 0 by {
                if i < 18 + m {
                    assert(frame@[18 + (i - 18)] == dark(size as nat)[i - 18]);
                }
            }
        }
        frame
    }

    /// Mark the send loop as running. Gives `true` when it was stopped, that is when
    /// the caller must start the loop; calling it while running changes nothing.
    pub fn start(&mut self) -> (spawn: bool)
        ensures
            spawn == !old(self).is_running(),
            final(self).is_running(),
            final(self).levels() == old(self).levels(),
            final(self).spec_universe() == old(self).spec_universe(),
            final(self).spec_packet_size() == old(self).spec_packet_size(),
            final(self).spec_fps() == old(self).spec_fps(),
    {
        proof {
            use_type_invariant(&*self);
        }
        if self.running {
            return false;
        }
        self.running = true;
        true
    }

    /// Mark the send loop as stopped. Gives `true` when it was running, that is when
    /// the caller must wait for the loop to end; calling it while stopped changes nothing.
    pub fn stop(&mut self) -> (join: bool)
        ensures
            join == old(self).is_running(),
            !final(self).is_running(),
            final(self).levels() == old(self).levels(),
            final(self).spec_universe() == old(self).spec_universe(),
            final(self).spec_packet_size() == old(self).spec_packet_size(),
            final(self).spec_fps() == old(self).spec_fps(),
    {
        proof {
            use_type_invariant(&*self);
        }
        if !self.running {
            return false;
        }
        self.running = false;
        true
    }

    /// The frame that carries the current buffer (sequence 0).
    pub fn frame(&self) -> (frame: Vec<u8>)
        ensures
            frame@ == artnet_frame(self.spec_universe(), 0, self.levels()),
    {
        build_artnet_frame(self.universe, 0, self.data.as_slice())
    }

    /// One turn of the send loop: the frame to send while running, `None` once the
    /// loop is to end.
    pub fn next_frame(&self) -> (frame: Option<Vec<u8>>)
        ensures
            self.is_running() <==> frame is Some,
            frame matches Some(f) ==> f@ == artnet_frame(self.spec_universe(), 0, self.levels()),
    {
        if self.running {
            Some(self.frame())
        } else {
            None
        }
    }

    /// Time between two frames of the send loop, in microseconds.
    pub fn send_interval_micros(&self) -> (micros: u64)
        ensures
            micros == interval_micros(self.spec_fps()),
            micros * (if self.spec_fps() == 0 {
                1
            } else {
                self.spec_fps() as int
            }) <= 1_000_000,
            1_000_000 < (micros + 1) * (if self.spec_fps() == 0 {
                1
            } else {
                self.spec_fps() as int
            }),
    {
        proof {
            lemma_interval_divides_second(self.fps);
        }
        let fps: u64 = if self.fps == 0 {
            1
        } else {
            self.fps as u64
        };
        1_000_000 / fps
    }

    /// The number of channels in the buffer.
    pub fn packet_size(&self) -> (n: u16)
        ensures
            n == self.spec_packet_size(),
            self.levels().len() == n,
    {
        proof {
            use_type_invariant(self);
        }
        self.packet_size
    }

    /// The universe frames are addressed to.
    pub fn universe(&self) -> (u: u16)
        ensures
            u == self.spec_universe(),
    {
        self.universe
    }

    /// The configured frame rate.
    pub fn fps(&self) -> (fps: u32)
        ensures
            fps == self.spec_fps(),
    {
        self.fps
    }

    /// Whether the send loop is meant to be running.
    pub fn running(&self) -> (r: bool)
        ensures
            r == self.is_running(),
    {
        self.running
    }

    /// The current DMX channels.
    pub fn levels_slice(&self) -> (levels: &[u8])
        ensures
            levels@ == self.levels(),
            levels@.len() == self.spec_packet_size(),
    {
        proof {
            use_type_invariant(self);
        }
        self.data.as_slice()
    }
}

} // verus!
