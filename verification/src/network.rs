//! The request/response correlator and the datagram model.
//!
//! UDP has no connection concept, so correctness rests on two local
//! rules: a unicast reply counts only when it comes from the address the
//! request went to, and a broadcast reply counts only when it is not an
//! echo of the broadcast itself. The polling loop that feeds events into
//! these rules lives with the caller that owns the socket; every
//! decision the loop takes is made here.

use vstd::prelude::*;

verus! {

broadcast use vstd::seq::group_seq_axioms, vstd::std_specs::vec::group_vec_axioms;

/// The protocol's fixed UDP port.
pub const PORT: u16 = 38899;

/// An IPv4 address, as four octets.
#[derive(Clone, Copy, Debug, PartialEq, Eq, Structural)]
pub struct IpAddress {
    pub o0: u8,
    pub o1: u8,
    pub o2: u8,
    pub o3: u8,
}

/// One received UDP message: its payload and where it came from.
#[derive(Debug)]
pub struct Datagram {
    pub data: Vec<u8>,
    pub source_ip: IpAddress,
    pub source_port: u16,
}

impl Datagram {
    pub fn data(&self) -> (r: &Vec<u8>)
        ensures
            r@ == self.data@,
    {
        &self.data
    }

    pub fn source_ip(&self) -> (r: IpAddress)
        ensures
            r == self.source_ip,
    {
        self.source_ip
    }
}

/// A failure of the correlator or of the receive path.
#[derive(Debug)]
pub enum NetworkError {
    /// No datagram arrived within the timeout; carries the elapsed time.
    NoResponse { elapsed_ms: u64 },
    /// A datagram arrived from an address other than the target.
    UnexpectedSource { actual: IpAddress, expected: IpAddress },
    /// A datagram filled the receive buffer exactly, so it may have been
    /// truncated; carries the buffer size.
    BufferOverflow { size: usize },
}

/// What one receive poll produced: a datagram, or nothing yet.
pub enum PollEvent {
    Received(Datagram),
    Empty,
}

/// What the correlator does with one poll result.
pub enum UnicastStep {
    /// Keep polling.
    Continue,
    /// This datagram answers the request.
    Deliver(Datagram),
    /// Give up with the given failure.
    Fail(NetworkError),
}

/// The unicast correlation rule. The timeout is checked first, as the
/// sender's loop does; a datagram from the wrong source fails the whole
/// exchange rather than being skipped, to surface cross-talk.
pub open spec fn unicast_decision(
    expected: IpAddress,
    timeout_ms: u64,
    elapsed_ms: u64,
    event: PollEvent,
) -> UnicastStep {
    if elapsed_ms >= timeout_ms {
        UnicastStep::Fail(NetworkError::NoResponse { elapsed_ms })
    } else {
        match event {
            PollEvent::Received(d) => if d.source_ip == expected {
                UnicastStep::Deliver(d)
            } else {
                UnicastStep::Fail(
                    NetworkError::UnexpectedSource { actual: d.source_ip, expected },
                )
            },
            PollEvent::Empty => UnicastStep::Continue,
        }
    }
}

/// Applies [`unicast_decision`] to one poll result.
pub fn unicast_step(
    expected: &IpAddress,
    timeout_ms: u64,
    elapsed_ms: u64,
    event: PollEvent,
) -> (r: UnicastStep)
    ensures
        r == unicast_decision(*expected, timeout_ms, elapsed_ms, event),
{
    if elapsed_ms >= timeout_ms {
        UnicastStep::Fail(NetworkError::NoResponse { elapsed_ms })
    } else {
        match event {
            PollEvent::Received(d) => {
                if d.source_ip.o0 == expected.o0 && d.source_ip.o1 == expected.o1
                    && d.source_ip.o2 == expected.o2 && d.source_ip.o3 == expected.o3 {
                    UnicastStep::Deliver(d)
                } else {
                    UnicastStep::Fail(
                        NetworkError::UnexpectedSource { actual: d.source_ip, expected: *expected },
                    )
                }
            },
            PollEvent::Empty => UnicastStep::Continue,
        }
    }
}

/// The outcome of a whole unicast exchange over a chronological record
/// of polls, each with its elapsed time: the first decisive poll settles
/// it, and a record that runs out undecided counts as the timeout
/// passing.
pub open spec fn correlate_spec(
    expected: IpAddress,
    timeout_ms: u64,
    polls: Seq<(u64, PollEvent)>,
) -> Result<Datagram, NetworkError>
    decreases polls.len(),
{
    if polls.len() == 0 {
        Err(NetworkError::NoResponse { elapsed_ms: timeout_ms })
    } else {
        match unicast_decision(expected, timeout_ms, polls[0].0, polls[0].1) {
            UnicastStep::Continue => correlate_spec(expected, timeout_ms, polls.drop_first()),
            UnicastStep::Deliver(d) => Ok(d),
            UnicastStep::Fail(e) => Err(e),
        }
    }
}

/// Runs the unicast correlation over a record of polls, as
/// [`correlate_spec`] describes. The live loop around a socket applies
/// [`unicast_step`] to each poll as it happens; this form serves callers
/// that already hold the polls.
pub fn correlate_unicast(
    expected: &IpAddress,
    timeout_ms: u64,
    polls: Vec<(u64, PollEvent)>,
) -> (r: Result<Datagram, NetworkError>)
    ensures
        r == correlate_spec(*expected, timeout_ms, polls@),
{
    let ghost gpolls = polls@;
    let mut rest = polls;
    loop
        invariant
            gpolls == polls@,
            correlate_spec(*expected, timeout_ms, gpolls) == correlate_spec(
                *expected,
                timeout_ms,
                rest@,
            ),
        ensures
            correlate_spec(*expected, timeout_ms, gpolls) == correlate_spec(
                *expected,
                timeout_ms,
                rest@,
            ),
            rest@.len() == 0,
        decreases rest@.len(),
    {
        if rest.len() == 0 {
            break ;
        }
        let ghost before = rest@;
        let (elapsed_ms, event) = rest.remove(0);
        proof {
            assert(before[0] == (elapsed_ms, event));
            assert(rest@ =~= before.drop_first());
        }
        match unicast_step(expected, timeout_ms, elapsed_ms, event) {
            UnicastStep::Continue => {
                assert(correlate_spec(*expected, timeout_ms, before) == correlate_spec(
                    *expected,
                    timeout_ms,
                    rest@,
                ));
            },
            UnicastStep::Deliver(d) => {
                assert(correlate_spec(*expected, timeout_ms, before) == Ok::<
                    Datagram,
                    NetworkError,
                >(d));
                return Ok(d);
            },
            UnicastStep::Fail(e) => {
                assert(correlate_spec(*expected, timeout_ms, before) == Err::<
                    Datagram,
                    NetworkError,
                >(e));
                return Err(e);
            },
        }
    }
    Err(NetworkError::NoResponse { elapsed_ms: timeout_ms })
}

/// A response from an address other than the target always fails the
/// exchange with the source mismatch, whatever the payload holds.
pub proof fn lemma_unexpected_source_fails(
    expected: IpAddress,
    timeout_ms: u64,
    elapsed_ms: u64,
    d: Datagram,
)
    requires
        elapsed_ms < timeout_ms,
        d.source_ip != expected,
    ensures
        unicast_decision(expected, timeout_ms, elapsed_ms, PollEvent::Received(d))
            == UnicastStep::Fail(
            NetworkError::UnexpectedSource { actual: d.source_ip, expected },
        ),
{
}

/// Once the timeout has elapsed the exchange fails with `NoResponse`,
/// and the elapsed time it reports is at least the timeout.
pub proof fn lemma_timeout_fails(
    expected: IpAddress,
    timeout_ms: u64,
    elapsed_ms: u64,
    event: PollEvent,
)
    requires
        elapsed_ms >= timeout_ms,
    ensures
        unicast_decision(expected, timeout_ms, elapsed_ms, event) == UnicastStep::Fail(
            NetworkError::NoResponse { elapsed_ms },
        ),
        (unicast_decision(expected, timeout_ms, elapsed_ms, event) matches UnicastStep::Fail(
            NetworkError::NoResponse { elapsed_ms: t },
        ) && t >= timeout_ms),
{
}

/// Frames one received message: a message that exactly fills the
/// receive buffer may have been truncated, so it is refused rather than
/// passed on as a valid frame.
pub fn frame_datagram(
    data: Vec<u8>,
    source_ip: IpAddress,
    source_port: u16,
    buffer_size: usize,
) -> (r: Result<Datagram, NetworkError>)
    requires
        data@.len() <= buffer_size,
    ensures
        (match r {
            Ok(d) => data@.len() < buffer_size && d.data@ == data@ && d.source_ip == source_ip
                && d.source_port == source_port,
            Err(e) => data@.len() == buffer_size && e == (NetworkError::BufferOverflow {
                size: buffer_size,
            }),
        }),
{
    if data.len() == buffer_size {
        Err(NetworkError::BufferOverflow { size: buffer_size })
    } else {
        Ok(Datagram { data, source_ip, source_port })
    }
}

/// The datagrams that are not byte-identical echoes of the sent payload.
pub open spec fn non_echoes(sent: Seq<u8>, received: Seq<Datagram>) -> Seq<Datagram> {
    received.filter(|d: Datagram| d.data@ != sent)
}

/// Drops every received datagram whose payload is byte-identical to the
/// broadcast payload, keeping the rest in arrival order.
pub fn filter_broadcast_echoes(sent: &Vec<u8>, received: Vec<Datagram>) -> (r: Vec<Datagram>)
    ensures
        r@ == non_echoes(sent@, received@),
{
    let mut out: Vec<Datagram> = Vec::new();
    let mut rest = received;
    let ghost grec = rest@;
    let ghost mut i: int = 0;
    proof {
        reveal(Seq::filter);
        assert(grec.take(0) =~= Seq::<Datagram>::empty());
        assert(non_echoes(sent@, grec.take(0)) =~= Seq::<Datagram>::empty());
        assert(rest@ =~= grec.skip(0));
    }
    loop
        invariant
            0 <= i <= grec.len(),
            rest@ == grec.skip(i),
            out@ == non_echoes(sent@, grec.take(i)),
        ensures
            i == grec.len(),
            out@ == non_echoes(sent@, grec.take(i)),
        decreases grec.len() - i,
    {
        if rest.len() == 0 {
            break ;
        }
        let d = rest.remove(0);
        assert(d == grec[i]);
        let is_echo = bytes_eq(&d.data, sent);
        proof {
            assert(grec.take(i + 1).drop_last() =~= grec.take(i));
            assert(grec.take(i + 1).last() == grec[i]);
            assert(grec.skip(i).drop_first() =~= grec.skip(i + 1));
            reveal(Seq::filter);
            if grec[i].data@ != sent@ {
                assert(non_echoes(sent@, grec.take(i + 1)) == non_echoes(sent@, grec.take(i)).push(
                    grec[i],
                ));
            } else {
                assert(non_echoes(sent@, grec.take(i + 1)) == non_echoes(sent@, grec.take(i)));
            }
        }
        if !is_echo {
            out.push(d);
        }
        proof {
            i = i + 1;
        }
    }
    proof {
        assert(grec.take(grec.len() as int) =~= grec);
    }
    out
}

/// Byte-for-byte payload comparison.
fn bytes_eq(a: &Vec<u8>, b: &Vec<u8>) -> (r: bool)
    ensures
        r == (a@ == b@),
{
    if a.len() != b.len() {
        return false;
    }
    let mut k: usize = 0;
    while k < b.len()
        invariant
            0 <= k <= b@.len(),
            a@.len() == b@.len(),
            forall|j: int| 0 <= j < k ==> a@[j] == b@[j],
        decreases b@.len() - k,
    {
        if a[k] != b[k] {
            return false;
        }
        k = k + 1;
    }
    proof {
        assert(a@ =~= b@);
    }
    true
}

/// Echo exclusion: nothing in the filtered set carries the broadcast
/// payload — the source address plays no part — and every datagram with
/// any other payload is kept.
pub proof fn lemma_echoes_excluded(sent: Seq<u8>, received: Seq<Datagram>)
    ensures
        forall|j: int|
            0 <= j < non_echoes(sent, received).len() ==> (#[trigger] non_echoes(
                sent,
                received,
            )[j]).data@ != sent,
        forall|i: int|
            0 <= i < received.len() && (#[trigger] received[i]).data@ != sent ==> non_echoes(
                sent,
                received,
            ).contains(received[i]),
{
    received.filter_lemma(|d: Datagram| d.data@ != sent);
    assert forall|i: int|
        0 <= i < received.len() && (#[trigger] received[i]).data@ != sent implies non_echoes(
        sent,
        received,
    ).contains(received[i]) by {
        received.lemma_filter_contains(|d: Datagram| d.data@ != sent, i);
    }
}

/// The four-bucket signal strength classification of an RSSI reading,
/// rendered as braille bar glyphs.
pub fn rssi_to_signal_strength(rssi: i8) -> (r: String)
    ensures
        rssi < -70 ==> r@ == "\u{2840} "@,
        -70 <= rssi < -60 ==> r@ == "\u{28e0} "@,
        -60 <= rssi < -50 ==> r@ == "\u{28e0}\u{2846}"@,
        -50 <= rssi ==> r@ == "\u{28e0}\u{28fe}"@,
{
    if rssi < -70 {
        String::from_str("\u{2840} ")
    } else if rssi < -60 {
        String::from_str("\u{28e0} ")
    } else if rssi < -50 {
        String::from_str("\u{28e0}\u{2846}")
    } else {
        String::from_str("\u{28e0}\u{28fe}")
    }
}

} // verus!
