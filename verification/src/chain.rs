//! [`OutcomeChain`]: the append-only typed receipt log.
//!
//! The chain computes every link for its caller: [`OutcomeChain::append`]
//! takes a payload, reads the sink's tail, derives the next sequence number
//! and previous hash, hashes, signs and writes.

use vstd::prelude::*;

use crate::hash::{zero_digest, ContentHash};
use crate::receipt::{content_hash_spec, unencodable_payload_text, Payload, Receipt, ReceiptModel};
use crate::signing::{message, Signature, signing_error_text, SigningError, SigningProvider};
use crate::sink::{
    appended, last_record, optional_model, read_back, sink_error_text, OutcomeSink, SinkError, SinkModel,
};
use crate::time::{clock_result, Timestamp};

verus! {

/// Why an append failed.
#[derive(Debug)]
pub enum AppendError {
    /// The receipt could not be encoded for hashing.
    Encode(String),
    /// The sink failed.
    Sink(SinkError),
    /// The signer failed.
    Sign(SigningError),
    /// The system clock's reading has no RFC 3339 rendering.
    Clock,
}

/// The text describing an append error.
pub open spec fn append_error_text(e: AppendError) -> Seq<char> {
    match e {
        AppendError::Encode(m) => "encode: "@ + m@,
        AppendError::Sink(s) => "sink: "@ + sink_error_text(s),
        AppendError::Sign(s) => "sign: "@ + signing_error_text(s),
        AppendError::Clock => "clock: reading has no RFC 3339 rendering"@,
    }
}

impl AppendError {
    /// A human-readable description of the error.
    pub fn describe(&self) -> (s: String)
        ensures
            s@ == append_error_text(*self),
    {
        match self {
            AppendError::Encode(m) => message("encode: ", m.as_str()),
            AppendError::Sink(e) => {
                let inner = e.describe();
                message("sink: ", inner.as_str())
            },
            AppendError::Sign(e) => {
                let inner = e.describe();
                message("sign: ", inner.as_str())
            },
            AppendError::Clock => String::from_str("clock: reading has no RFC 3339 rendering"),
        }
    }
}

/// The sequence number of the receipt that follows `tail` (0 on an empty
/// chain).
pub open spec fn next_sequence<V>(tail: Option<ReceiptModel<V>>) -> u64 {
    match tail {
        Some(t) => (t.sequence + 1) as u64,
        None => 0,
    }
}

/// The `prev_hash` of the receipt that follows `tail` (the genesis
/// sentinel on an empty chain).
pub open spec fn next_prev_hash<V>(tail: Option<ReceiptModel<V>>) -> Seq<u8> {
    match tail {
        Some(t) => t.content_hash,
        None => zero_digest(),
    }
}

/// `r` is sealed by `signer`: it carries the payload kind, its content
/// hash is the one its fields call for, and its signature is one the signer
/// makes over that hash.
pub open spec fn well_sealed<P: Payload, G: SigningProvider>(r: ReceiptModel<P::V>, signer: G) -> bool {
    &&& r.kind == P::kind_spec()
    &&& content_hash_spec::<P>(r.sequence, r.timestamp, r.kind, r.prev_hash, r.payload) == Some(
        r.content_hash,
    )
    &&& signer.produces(r.content_hash, r.signature)
}

/// `r` is linked right after `tail`: it continues the sequence and names
/// `tail`'s content hash (or the genesis sentinel) as its predecessor.
pub open spec fn links_after<V>(tail: Option<ReceiptModel<V>>, r: ReceiptModel<V>) -> bool {
    r.sequence == next_sequence(tail) && r.prev_hash == next_prev_hash(tail)
}

/// `r` is the receipt that sealing right after `tail` with `signer` gives.
pub open spec fn sealed_after<P: Payload, G: SigningProvider>(
    tail: Option<ReceiptModel<P::V>>,
    r: ReceiptModel<P::V>,
    signer: G,
) -> bool {
    links_after(tail, r) && well_sealed::<P, G>(r, signer)
}

/// The sequence numbers have room for one more receipt after `tail`.
pub open spec fn room_after<V>(tail: Option<ReceiptModel<V>>) -> bool {
    tail matches Some(t) ==> t.sequence < u64::MAX
}

/// The content hash of the receipt for `payload` at `timestamp` linked
/// after `tail`.
pub open spec fn next_content_hash<P: Payload>(
    tail: Option<ReceiptModel<P::V>>,
    payload: P::V,
    timestamp: Timestamp,
) -> Option<Seq<u8>> {
    content_hash_spec::<P>(
        next_sequence(tail),
        timestamp,
        P::kind_spec(),
        next_prev_hash(tail),
        payload,
    )
}

/// The append was refused because the clock's reading has no rendering.
pub open spec fn clock_refused<P>(r: Result<Receipt<P>, AppendError>) -> bool {
    r matches Err(AppendError::Clock)
}

/// What one append did to a chain whose sink publishes the model `m`
/// before the call, given the signer and the result.
pub open spec fn append_outcome<P: Payload, S: OutcomeSink<P>, G: SigningProvider>(
    m: SinkModel<P::V>,
    after: S,
    signer: G,
    payload: P::V,
    timestamp: Timestamp,
    r: Result<Receipt<P>, AppendError>,
) -> bool {
    let tail = last_record(m.records);
    let hash = next_content_hash::<P>(tail, payload, timestamp);
    &&& after.model() is Some
    &&& after.model()->0.retains == m.retains
    &&& after.model()->0.infallible == m.infallible
    &&& match r {
        Ok(rc) => {
            &&& sealed_after::<P, G>(tail, rc@, signer)
            &&& after.model()->0.records == appended(m, rc@)
        },
        Err(AppendError::Encode(_)) => {
            &&& (!room_after(tail) || hash is None)
            &&& after.model()->0.records == m.records
        },
        Err(AppendError::Sign(_)) => {
            &&& room_after(tail) && hash is Some && !signer.infallible()
            &&& after.model()->0.records == m.records
        },
        Err(AppendError::Sink(_)) => !m.infallible,
        Err(AppendError::Clock) => false,
    }
}

/// `t` is a result that `sink.tail()` may give.
pub open spec fn tail_gives<P: Payload, S: OutcomeSink<P>>(
    sink: S,
    t: Result<Option<Receipt<P>>, SinkError>,
) -> bool {
    call_ensures(S::tail, (&sink,), t)
}

/// What one append did to a chain over any sink (`before`, then
/// `after`), given the signer and the result: a receipt is sealed right
/// after a tail that `before.tail()` may give; the library's own refusals
/// name their cause against that tail and leave the sink untouched, as
/// does a failed tail read, whose error is the sink's.
pub open spec fn append_links<P: Payload, S: OutcomeSink<P>, G: SigningProvider>(
    before: S,
    after: S,
    signer: G,
    payload: P::V,
    timestamp: Timestamp,
    r: Result<Receipt<P>, AppendError>,
) -> bool {
    match r {
        Ok(rc) => (exists|t: Option<Receipt<P>>|
            #[trigger] tail_gives::<P, S>(before, Ok(t)) && sealed_after::<P, G>(
                optional_model(t),
                rc@,
                signer,
            )) && exists|c: &[u8]|
            c@ == rc@.content_hash && #[trigger] call_ensures(
                G::sign,
                (&signer, c),
                Ok::<Signature, SigningError>(rc.signature),
            ),
        Err(AppendError::Sink(e)) => (tail_gives::<P, S>(before, Err(e)) && after == before)
            || exists|t: Option<Receipt<P>>, rc: Receipt<P>|
            #[trigger] tail_gives::<P, S>(before, Ok(t)) && #[trigger] sealed_after::<P, G>(
                optional_model(t),
                rc@,
                signer,
            ) && rc@.payload == payload && rc@.timestamp == timestamp,
        Err(AppendError::Encode(_)) => after == before && exists|t: Option<Receipt<P>>|
            #[trigger] tail_gives::<P, S>(before, Ok(t)) && (!room_after(optional_model(t))
                || next_content_hash::<P>(optional_model(t), payload, timestamp) is None),
        Err(AppendError::Sign(e)) => after == before && !signer.infallible() && exists|
            t: Option<Receipt<P>>,
        |
            #[trigger] tail_gives::<P, S>(before, Ok(t)) && room_after(optional_model(t))
                && next_content_hash::<P>(optional_model(t), payload, timestamp) is Some
                && signer.refuses(
                next_content_hash::<P>(optional_model(t), payload, timestamp)->0,
                e,
            ),
        Err(AppendError::Clock) => after == before,
    }
}

/// What an append at the clock's instant `ts` did (`None`: the reading had
/// no rendering, and the append was refused with [`AppendError::Clock`]
/// without touching the sink): otherwise exactly what
/// [`OutcomeChain::append_at`] does at that instant.
pub open spec fn append_at_clock<P: Payload, S: OutcomeSink<P>, G: SigningProvider>(
    before: S,
    after: S,
    signer: G,
    payload: P::V,
    ts: Option<Timestamp>,
    r: Result<Receipt<P>, AppendError>,
) -> bool {
    match ts {
        None => clock_refused(r) && after == before,
        Some(t) => {
            &&& !clock_refused(r)
            &&& append_links::<P, S, G>(before, after, signer, payload, t, r)
            &&& r matches Ok(rc) ==> rc@.timestamp == t
            &&& before.model() is Some ==> {
                let m = before.model()->0;
                let tail = last_record(m.records);
                &&& append_outcome::<P, S, G>(m, after, signer, payload, t, r)
                &&& (room_after(tail) && next_content_hash::<P>(tail, payload, t) is Some
                    && m.infallible && signer.infallible()) ==> r is Ok
            }
        },
    }
}

/// The append-only chain: a sink plus a signer.
pub struct OutcomeChain<P, S, G> {
    sink: S,
    signer: G,
    _phantom: core::marker::PhantomData<P>,
}

impl<P: Payload, S: OutcomeSink<P>, G: SigningProvider> OutcomeChain<P, S, G> {
    /// The sink the chain writes through.
    pub closed spec fn sink_spec(&self) -> S {
        self.sink
    }

    /// The signer the chain signs with.
    pub closed spec fn signer_spec(&self) -> G {
        self.signer
    }

    /// A chain over `sink`, signing with `signer`.
    pub fn new(sink: S, signer: G) -> (c: Self)
        ensures
            c.sink_spec() == sink,
            c.signer_spec() == signer,
    {
        OutcomeChain { sink, signer, _phantom: core::marker::PhantomData }
    }

    /// Borrow the sink.
    pub fn sink(&self) -> (s: &S)
        ensures
            *s == self.sink_spec(),
    {
        &self.sink
    }

    /// Append a receipt for `payload`, sealed at the current time. A clock
    /// reading that `chrono` cannot represent is refused with
    /// [`AppendError::Clock`] and leaves the sink untouched.
    pub fn append(&mut self, payload: P) -> (r: Result<Receipt<P>, AppendError>)
        ensures
            final(self).signer_spec() == old(self).signer_spec(),
            r matches Ok(rc) ==> rc@.payload == payload@ && well_sealed::<P, G>(
                rc@,
                old(self).signer_spec(),
            ),
            r matches Err(AppendError::Sign(_)) ==> !old(self).signer_spec().infallible(),
            exists|reading: Result<(u64, u32), (u64, u32)>, ts: Option<Timestamp>|
                #![trigger clock_result(reading, ts)]
                clock_result(reading, ts) && append_at_clock::<P, S, G>(
                    old(self).sink_spec(),
                    final(self).sink_spec(),
                    old(self).signer_spec(),
                    payload@,
                    ts,
                    r,
                ),
    {
        let timestamp = match Timestamp::now() {
            Some(t) => t,
            None => {
                return Err(AppendError::Clock);
            },
        };
        proof {
            use_type_invariant(&timestamp);
        }
        let r = self.append_at(payload, timestamp);
        proof {
            assert(append_at_clock::<P, S, G>(
                old(self).sink_spec(),
                self.sink_spec(),
                old(self).signer_spec(),
                payload@,
                Some(timestamp),
                r,
            ));
        }
        r
    }

    /// Seal `payload` at `timestamp` as the receipt that follows `tail`
    /// (what the sink's `tail` gave): derive sequence number and previous
    /// hash, hash, and sign. Writes nothing. A tail whose sequence number
    /// is already the largest is refused with [`AppendError::Encode`].
    pub fn seal(&self, tail: &Option<Receipt<P>>, payload: P, timestamp: Timestamp) -> (r: Result<
        Receipt<P>,
        AppendError,
    >)
        ensures
            r matches Ok(rc) ==> {
                &&& rc@.payload == payload@
                &&& rc@.timestamp == timestamp
                &&& sealed_after::<P, G>(optional_model(*tail), rc@, self.signer_spec())
            },
            !room_after(optional_model(*tail)) ==> (r matches Err(AppendError::Encode(m)) && m@
                == "sequence overflow"@),
            (room_after(optional_model(*tail)) && next_content_hash::<P>(
                optional_model(*tail),
                payload@,
                timestamp,
            ) is None) ==> (r matches Err(AppendError::Encode(m)) && m@
                == unencodable_payload_text()),
            (room_after(optional_model(*tail)) && next_content_hash::<P>(
                optional_model(*tail),
                payload@,
                timestamp,
            ) is Some) ==> (r is Ok || (r is Err && r->Err_0 is Sign
                && !self.signer_spec().infallible())),
            r matches Ok(rc) ==> exists|c: &[u8]|
                c@ == rc@.content_hash && #[trigger] call_ensures(
                    G::sign,
                    (&self.signer_spec(), c),
                    Ok::<Signature, SigningError>(rc.signature),
                ),
            r matches Err(AppendError::Sign(e)) ==> {
                &&& room_after(optional_model(*tail))
                &&& next_content_hash::<P>(optional_model(*tail), payload@, timestamp) is Some
                &&& self.signer_spec().refuses(
                    next_content_hash::<P>(optional_model(*tail), payload@, timestamp)->0,
                    e,
                )
                &&& exists|c: &[u8]|
                    c@ == next_content_hash::<P>(optional_model(*tail), payload@, timestamp)->0
                        && #[trigger] call_ensures(
                        G::sign,
                        (&self.signer_spec(), c),
                        Err::<Signature, SigningError>(e),
                    )
            },
    {
        let (sequence, prev_hash) = match tail {
            Some(t) => {
                if t.sequence == u64::MAX {
                    let m = String::from_str("sequence overflow");
                    return Err(AppendError::Encode(m));
                }
                (t.sequence + 1, t.content_hash)
            },
            None => (0u64, ContentHash::genesis()),
        };
        let content_hash = match Receipt::<P>::compute_content_hash(
            sequence,
            timestamp,
            prev_hash,
            &payload,
        ) {
            Ok(h) => h,
            Err(e) => {
                return Err(AppendError::Encode(e));
            },
        };
        let content = content_hash.0.as_slice();
        let signed = self.signer.sign(content);
        assert(call_ensures(G::sign, (&self.signer_spec(), content), signed));
        let signature = match signed {
            Ok(s) => s,
            Err(e) => {
                return Err(AppendError::Sign(e));
            },
        };
        Ok(
            Receipt {
                sequence,
                timestamp,
                kind: String::from_str(P::kind()),
                prev_hash,
                payload,
                signature,
                content_hash,
            },
        )
    }

    /// Append a receipt for `payload`, sealed at `timestamp`: read the
    /// sink's tail, seal the receipt after it ([`Self::seal`]), write it
    /// through to the sink, and return it.
    pub fn append_at(&mut self, payload: P, timestamp: Timestamp) -> (r: Result<
        Receipt<P>,
        AppendError,
    >)
        ensures
            final(self).signer_spec() == old(self).signer_spec(),
            !clock_refused(r),
            r matches Ok(rc) ==> {
                &&& rc@.payload == payload@
                &&& rc@.timestamp == timestamp
                &&& well_sealed::<P, G>(rc@, old(self).signer_spec())
            },
            append_links::<P, S, G>(
                old(self).sink_spec(),
                final(self).sink_spec(),
                old(self).signer_spec(),
                payload@,
                timestamp,
                r,
            ),
            old(self).sink_spec().model() is Some ==> {
                let m = old(self).sink_spec().model()->0;
                let tail = last_record(m.records);
                &&& append_outcome::<P, S, G>(
                    m,
                    final(self).sink_spec(),
                    old(self).signer_spec(),
                    payload@,
                    timestamp,
                    r,
                )
                &&& (room_after(tail) && next_content_hash::<P>(tail, payload@, timestamp) is Some
                    && m.infallible && old(self).signer_spec().infallible()) ==> r is Ok
            },
    {
        let ghost before = self.sink;
        let tail_read = self.sink.tail();
        let tail = match tail_read {
            Ok(t) => t,
            Err(e) => {
                return Err(AppendError::Sink(e));
            },
        };
        assert(tail_gives::<P, S>(before, Ok(tail)));
        let receipt = match self.seal(&tail, payload, timestamp) {
            Ok(rc) => rc,
            Err(e) => {
                return Err(e);
            },
        };
        let written = receipt.duplicate();
        assert(sealed_after::<P, G>(optional_model(tail), receipt@, self.signer));
        match self.sink.append(written) {
            Ok(()) => Ok(receipt),
            Err(e) => Err(AppendError::Sink(e)),
        }
    }

    /// Every receipt currently in the sink.
    pub fn read_all(&self) -> (r: Result<Vec<Receipt<P>>, AppendError>)
        ensures
            read_back(
                self.sink_spec().model(),
                match r {
                    Ok(v) => Some(crate::sink::receipt_models(v@)),
                    Err(_) => None,
                },
            ),
            r matches Err(e) ==> e is Sink,
            exists|sr: Result<Vec<Receipt<P>>, SinkError>|
                #[trigger] call_ensures(S::read_all, (&self.sink_spec(),), sr) && match sr {
                    Ok(v) => r == Ok::<Vec<Receipt<P>>, AppendError>(v),
                    Err(e) => r == Err::<Vec<Receipt<P>>, AppendError>(AppendError::Sink(e)),
                },
    {
        let sr = self.sink.read_all();
        assert(call_ensures(S::read_all, (&self.sink_spec(),), sr));
        let r = match sr {
            Ok(v) => Ok(v),
            Err(e) => Err(AppendError::Sink(e)),
        };
        assert(match sr {
            Ok(v) => r == Ok::<Vec<Receipt<P>>, AppendError>(v),
            Err(e) => r == Err::<Vec<Receipt<P>>, AppendError>(AppendError::Sink(e)),
        });
        r
    }
}

} // verus!
