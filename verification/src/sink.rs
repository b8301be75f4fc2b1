//! Persistence of receipts.
//!
//! [`OutcomeSink`] is the persistence abstraction every chain writes
//! through. [`InMemorySink`] keeps receipts in a vector, [`NullSink`] drops
//! them. [`FilesystemSink`] holds the on-disk layout (one JSON file per
//! receipt, `<base>/<resource-key>/<sequence:020>.json`) and the rules for
//! choosing and ordering receipt files; the disk reads and writes
//! themselves happen outside this library.

use vstd::prelude::*;
use vstd::utf8::{encode_utf8, is_ascii_chars, is_ascii_chars_encode_utf8};

use crate::receipt::{Payload, Receipt, ReceiptModel};
use crate::signing::message;
use crate::text::{
    all_digits, decimal, digits_value, lemma_decimal_shape, lemma_decimal_value,
    lemma_digits_first_difference, lemma_leading_zeros_value, push_decimal, push_str, zero_padded,
};

verus! {

/// Why a sink operation failed.
#[derive(Debug)]
pub enum SinkError {
    Io(String),
    Encode(String),
    Decode(String),
    Invariant(String),
}

/// The text describing a sink error.
pub open spec fn sink_error_text(e: SinkError) -> Seq<char> {
    match e {
        SinkError::Io(m) => "io: "@ + m@,
        SinkError::Encode(m) => "encode: "@ + m@,
        SinkError::Decode(m) => "decode: "@ + m@,
        SinkError::Invariant(m) => "sink invariant: "@ + m@,
    }
}

impl SinkError {
    /// A human-readable description of the error.
    pub fn describe(&self) -> (s: String)
        ensures
            s@ == sink_error_text(*self),
    {
        match self {
            SinkError::Io(m) => message("io: ", m.as_str()),
            SinkError::Encode(m) => message("encode: ", m.as_str()),
            SinkError::Decode(m) => message("decode: ", m.as_str()),
            SinkError::Invariant(m) => message("sink invariant: ", m.as_str()),
        }
    }
}

/// The models of a sequence of receipts.
pub open spec fn receipt_models<P: Payload>(rs: Seq<Receipt<P>>) -> Seq<ReceiptModel<P::V>> {
    rs.map_values(|r: Receipt<P>| r@)
}

/// The model of an optional receipt.
pub open spec fn optional_model<P: Payload>(r: Option<Receipt<P>>) -> Option<ReceiptModel<P::V>> {
    match r {
        Some(x) => Some(x@),
        None => None,
    }
}

/// The last element, if any.
pub open spec fn last_record<V>(rs: Seq<V>) -> Option<V> {
    if rs.len() == 0 {
        None
    } else {
        Some(rs.last())
    }
}

/// What a sink is known to do: the receipts it holds (in append order),
/// whether it keeps what it is given, and whether it never fails.
pub struct SinkModel<V> {
    pub records: Seq<ReceiptModel<V>>,
    pub retains: bool,
    pub infallible: bool,
}

/// The records after appending `r`: added at the end by a retaining sink,
/// dropped by any other.
pub open spec fn appended<V>(m: SinkModel<V>, r: ReceiptModel<V>) -> Seq<ReceiptModel<V>> {
    if m.retains {
        m.records.push(r)
    } else {
        m.records
    }
}

/// What a read of `model`'s sink may give back (`None` for a failed read):
/// never a failure for an infallible sink, and exactly the records.
pub open spec fn read_back<V>(model: Option<SinkModel<V>>, read: Option<Seq<ReceiptModel<V>>>) -> bool {
    match model {
        None => true,
        Some(m) => (m.infallible ==> read is Some) && (read matches Some(rs) ==> rs == m.records),
    }
}

/// The models of a read result.
pub open spec fn read_models<P: Payload>(r: Result<Vec<Receipt<P>>, SinkError>) -> Option<
    Seq<ReceiptModel<P::V>>,
> {
    match r {
        Ok(v) => Some(receipt_models(v@)),
        Err(_) => None,
    }
}

/// The append-only persistence abstraction. A sink that publishes a
/// [`SinkModel`] behaves as it says: reads give its records back in append
/// order, `tail` is the last record and `len` their number, and an append
/// adds the receipt at the end (or drops it, for a sink that does not
/// retain). Of a sink that publishes no model nothing is promised.
pub trait OutcomeSink<P: Payload>: Send + Sized {
    /// The sink's model, when it publishes one.
    open spec fn model(&self) -> Option<SinkModel<P::V>> {
        None
    }

    /// Append one receipt at the tail.
    fn append(&mut self, receipt: Receipt<P>) -> (r: Result<(), SinkError>)
        ensures
            old(self).model() is Some ==> {
                let m = old(self).model()->0;
                &&& final(self).model() is Some
                &&& final(self).model()->0.retains == m.retains
                &&& final(self).model()->0.infallible == m.infallible
                &&& m.infallible ==> r is Ok
                &&& r is Ok ==> final(self).model()->0.records == appended(m, receipt@)
            },
    ;

    /// Every receipt currently held, in append order.
    fn read_all(&self) -> (r: Result<Vec<Receipt<P>>, SinkError>)
        ensures
            read_back(self.model(), read_models(r)),
    ;

    /// The most recently appended receipt; `None` when empty.
    fn tail(&self) -> (r: Result<Option<Receipt<P>>, SinkError>)
        ensures
            self.model() is Some ==> {
                let m = self.model()->0;
                &&& m.infallible ==> r is Ok
                &&& r matches Ok(t) ==> optional_model(t) == last_record(m.records)
            },
    {
        let mut all = self.read_all()?;
        let ghost read = receipt_models(all@);
        let last = all.pop();
        proof {
            if last is Some {
                assert(last->0@ == read.last());
            }
        }
        Ok(last)
    }

    /// Number of receipts held.
    fn len(&self) -> (r: Result<usize, SinkError>)
        ensures
            self.model() is Some ==> {
                let m = self.model()->0;
                &&& m.infallible ==> r is Ok
                &&& r matches Ok(n) ==> n == m.records.len()
            },
    {
        let all = self.read_all()?;
        Ok(all.len())
    }

    /// Whether the sink holds no receipt.
    fn is_empty(&self) -> (r: Result<bool, SinkError>)
        ensures
            self.model() is Some ==> {
                let m = self.model()->0;
                &&& m.infallible ==> r is Ok
                &&& r matches Ok(b) ==> b == (m.records.len() == 0)
            },
    {
        let n = self.len()?;
        Ok(n == 0)
    }
}

// ─── InMemorySink ──────────────────────────────────────────────────

/// Vector-backed sink, the testing default. It has no `Clone`: a copy
/// would not share the receipts, so a second handle is a borrow of the one
/// sink (see [`crate::OutcomeChain::sink`]).
pub struct InMemorySink<P> {
    receipts: Vec<Receipt<P>>,
}

impl<P: Payload> InMemorySink<P> {
    /// The receipts held, in append order.
    pub closed spec fn stored(&self) -> Seq<ReceiptModel<P::V>> {
        receipt_models(self.receipts@)
    }
}

impl<P: Payload> Default for InMemorySink<P> {
    fn default() -> (s: Self)
        ensures
            s.stored() == Seq::<ReceiptModel<P::V>>::empty(),
    {
        let s = InMemorySink { receipts: Vec::new() };
        assert(s.stored() =~= Seq::<ReceiptModel<P::V>>::empty());
        s
    }
}

/// Copies of every receipt of `v`.
fn copy_receipts<P: Payload>(v: &Vec<Receipt<P>>) -> (r: Vec<Receipt<P>>)
    ensures
        receipt_models(r@) == receipt_models(v@),
{
    let mut out: Vec<Receipt<P>> = Vec::new();
    let mut i: usize = 0;
    while i < v.len()
        invariant
            i <= v.len(),
            out@.len() == i,
            forall|j: int| 0 <= j < i ==> #[trigger] out@[j]@ == v@[j]@,
        decreases v.len() - i,
    {
        out.push(v[i].duplicate());
        i = i + 1;
    }
    assert(receipt_models(out@) =~= receipt_models(v@));
    out
}

impl<P: Payload> OutcomeSink<P> for InMemorySink<P> {
    open spec fn model(&self) -> Option<SinkModel<P::V>> {
        Some(SinkModel { records: self.stored(), retains: true, infallible: true })
    }

    fn append(&mut self, receipt: Receipt<P>) -> (r: Result<(), SinkError>) {
        self.receipts.push(receipt);
        assert(self.stored() =~= old(self).stored().push(receipt@));
        Ok(())
    }

    fn read_all(&self) -> (r: Result<Vec<Receipt<P>>, SinkError>) {
        Ok(copy_receipts(&self.receipts))
    }

    fn tail(&self) -> (r: Result<Option<Receipt<P>>, SinkError>) {
        let n = self.receipts.len();
        if n == 0 {
            Ok(None)
        } else {
            Ok(Some(self.receipts[n - 1].duplicate()))
        }
    }

    fn len(&self) -> (r: Result<usize, SinkError>) {
        Ok(self.receipts.len())
    }
}

// ─── NullSink ──────────────────────────────────────────────────────

/// Sink that accepts every receipt and keeps none.
pub struct NullSink<P>(core::marker::PhantomData<P>);

impl<P: Payload> Default for NullSink<P> {
    fn default() -> (s: Self) {
        NullSink(core::marker::PhantomData)
    }
}

impl<P: Payload> OutcomeSink<P> for NullSink<P> {
    open spec fn model(&self) -> Option<SinkModel<P::V>> {
        Some(SinkModel { records: Seq::empty(), retains: false, infallible: true })
    }

    fn append(&mut self, receipt: Receipt<P>) -> (r: Result<(), SinkError>) {
        Ok(())
    }

    fn read_all(&self) -> (r: Result<Vec<Receipt<P>>, SinkError>) {
        let v: Vec<Receipt<P>> = Vec::new();
        assert(receipt_models(v@) =~= Seq::<ReceiptModel<P::V>>::empty());
        Ok(v)
    }
}

// ─── FilesystemSink layout ─────────────────────────────────────────

/// The file name of the receipt with this sequence number: the number
/// zero-padded to 20 digits, then `.json`.
pub open spec fn receipt_file_name_text(sequence: u64) -> Seq<char> {
    zero_padded(sequence as nat, 20) + ".json"@
}

/// The text of the error for a receipt `sequence` appended after
/// `last_sequence`.
pub open spec fn out_of_order_text(last_sequence: u64, sequence: u64) -> Seq<char> {
    "sequence "@ + decimal(sequence as nat) + " does not follow "@ + decimal(last_sequence as nat)
}

/// The bytes of `.json`.
pub open spec fn json_suffix() -> Seq<u8> {
    seq![46u8, 106u8, 115u8, 111u8, 110u8]
}

/// A file name whose extension is `json`: it ends in `.json` and something
/// precedes that dot.
pub open spec fn has_json_extension(name: Seq<u8>) -> bool {
    name.len() > 5 && name.subrange(name.len() - 5, name.len() as int) == json_suffix()
}

/// Byte-wise lexicographic order (a prefix comes first).
pub open spec fn bytes_le(a: Seq<u8>, b: Seq<u8>) -> bool
    decreases a.len(),
{
    if a.len() == 0 {
        true
    } else if b.len() == 0 {
        false
    } else if a[0] != b[0] {
        a[0] < b[0]
    } else {
        bytes_le(a.drop_first(), b.drop_first())
    }
}

/// Ascending in byte-wise order.
pub open spec fn sorted_names(s: Seq<Seq<u8>>) -> bool {
    forall|i: int, j: int| 0 <= i < j < s.len() ==> bytes_le(#[trigger] s[i], #[trigger] s[j])
}

/// The byte strings held by a vector of byte vectors.
pub open spec fn byte_strings(v: Seq<Vec<u8>>) -> Seq<Seq<u8>> {
    v.map_values(|b: Vec<u8>| b@)
}

/// The names with a `json` extension, in their original order.
pub open spec fn json_names(names: Seq<Seq<u8>>) -> Seq<Seq<u8>> {
    names.filter(|n: Seq<u8>| has_json_extension(n))
}

proof fn lemma_bytes_le_total(a: Seq<u8>, b: Seq<u8>)
    ensures
        bytes_le(a, b) || bytes_le(b, a),
    decreases a.len(),
{
    if a.len() > 0 && b.len() > 0 && a[0] == b[0] {
        lemma_bytes_le_total(a.drop_first(), b.drop_first());
    }
}

proof fn lemma_bytes_le_transitive(a: Seq<u8>, b: Seq<u8>, c: Seq<u8>)
    requires
        bytes_le(a, b),
        bytes_le(b, c),
    ensures
        bytes_le(a, c),
    decreases a.len(),
{
    if a.len() > 0 && b.len() > 0 && c.len() > 0 && a[0] == b[0] && b[0] == c[0] {
        lemma_bytes_le_transitive(a.drop_first(), b.drop_first(), c.drop_first());
    }
}

/// Byte strings that agree up to position `i` and differ there are ordered
/// by the bytes at `i`, strictly.
proof fn lemma_bytes_first_difference(a: Seq<u8>, b: Seq<u8>, i: int)
    requires
        0 <= i < a.len(),
        i < b.len(),
        a.take(i) == b.take(i),
        a[i] < b[i],
    ensures
        bytes_le(a, b),
        !bytes_le(b, a),
    decreases i,
{
    if i > 0 {
        assert(a[0] == a.take(i)[0] && b[0] == b.take(i)[0]);
        assert(a.drop_first().take(i - 1) =~= a.take(i).drop_first());
        assert(b.drop_first().take(i - 1) =~= b.take(i).drop_first());
        lemma_bytes_first_difference(a.drop_first(), b.drop_first(), i - 1);
    }
}

/// A sequence number zero-padded to 20 places: 20 digits standing for it.
proof fn lemma_padded_sequence(n: u64)
    ensures
        zero_padded(n as nat, 20).len() == 20,
        all_digits(zero_padded(n as nat, 20)),
        digits_value(zero_padded(n as nat, 20)) == n,
{
    reveal_with_fuel(vstd::arithmetic::power::pow, 21);
    assert(vstd::arithmetic::power::pow(10, 20) == 100_000_000_000_000_000_000int);
    lemma_decimal_shape(n as nat, 20);
    lemma_decimal_value(n as nat);
    let d = decimal(n as nat);
    if d.len() < 20 {
        let k = (20 - d.len()) as nat;
        let z = Seq::new(k, |i: int| '0');
        lemma_leading_zeros_value(k, d);
        assert forall|i: int| 0 <= i < (z + d).len() implies 48 <= #[trigger] ((z + d)[i] as int)
            <= 57 by {
            if i >= k {
                assert((z + d)[i] == d[i - k]);
            }
        }
    }
}

/// Receipt file names sort in sequence order: for `a < b`, the UTF-8
/// bytes of the file name of `a` come strictly before those of `b`
/// byte-wise, so a sorted listing of a chain's directory reads its receipts
/// in sequence order.
pub proof fn lemma_receipt_file_names_ordered(a: u64, b: u64)
    requires
        a < b,
    ensures
        bytes_le(
            encode_utf8(receipt_file_name_text(a)),
            encode_utf8(receipt_file_name_text(b)),
        ),
        !bytes_le(
            encode_utf8(receipt_file_name_text(b)),
            encode_utf8(receipt_file_name_text(a)),
        ),
{
    let za = zero_padded(a as nat, 20);
    let zb = zero_padded(b as nat, 20);
    lemma_padded_sequence(a);
    lemma_padded_sequence(b);
    let i = lemma_digits_first_difference(za, zb);
    let fa = receipt_file_name_text(a);
    let fb = receipt_file_name_text(b);
    reveal_strlit(".json");
    assert(is_ascii_chars(fa) && is_ascii_chars(fb)) by {
        assert forall|j: int| 0 <= j < fa.len() implies '\0' <= #[trigger] fa[j] <= '\u{7f}' by {
            if j < 20 {
                assert(fa[j] == za[j]);
                assert(48 <= (za[j] as int) <= 57);
            }
        }
        assert forall|j: int| 0 <= j < fb.len() implies '\0' <= #[trigger] fb[j] <= '\u{7f}' by {
            if j < 20 {
                assert(fb[j] == zb[j]);
                assert(48 <= (zb[j] as int) <= 57);
            }
        }
    }
    is_ascii_chars_encode_utf8(fa);
    is_ascii_chars_encode_utf8(fb);
    let ea = encode_utf8(fa);
    let eb = encode_utf8(fb);
    assert(ea.take(i) =~= eb.take(i)) by {
        assert forall|j: int| 0 <= j < i implies ea.take(i)[j] == eb.take(i)[j] by {
            assert(za.take(i)[j] == zb.take(i)[j]);
            assert(fa[j] == za[j] && fb[j] == zb[j]);
            assert(ea[j] == fa[j] as u8 && eb[j] == fb[j] as u8);
        }
    }
    assert(fa[i] == za[i] && fb[i] == zb[i]);
    assert(48 <= (za[i] as int) <= 57 && 48 <= (zb[i] as int) <= 57);
    assert(ea[i] == fa[i] as u8 && eb[i] == fb[i] as u8);
    assert((fa[i] as u8) < (fb[i] as u8));
    lemma_bytes_first_difference(ea, eb, i);
}

/// Is `a` at or before `b` in byte-wise order?
fn bytes_le_exec(a: &Vec<u8>, b: &Vec<u8>) -> (r: bool)
    ensures
        r == bytes_le(a@, b@),
{
    let mut i: usize = 0;
    assert(a@.skip(0) =~= a@);
    assert(b@.skip(0) =~= b@);
    while i < a.len() && i < b.len()
        invariant
            i <= a.len(),
            i <= b.len(),
            bytes_le(a@, b@) == bytes_le(a@.skip(i as int), b@.skip(i as int)),
        decreases a.len() - i,
    {
        if a[i] != b[i] {
            return a[i] < b[i];
        }
        assert(a@.skip(i as int).drop_first() =~= a@.skip(i + 1));
        assert(b@.skip(i as int).drop_first() =~= b@.skip(i + 1));
        i = i + 1;
    }
    i == a.len()
}

/// A copy of the bytes.
fn copy_bytes(v: &Vec<u8>) -> (r: Vec<u8>)
    ensures
        r@ == v@,
{
    let mut out: Vec<u8> = Vec::new();
    let mut i: usize = 0;
    while i < v.len()
        invariant
            i <= v.len(),
            out@ == v@.take(i as int),
        decreases v.len() - i,
    {
        out.push(v[i]);
        assert(v@.take(i + 1) =~= v@.take(i as int).push(v@[i as int]));
        i = i + 1;
    }
    assert(v@.take(v.len() as int) =~= v@);
    out
}

/// Does the name have a `json` extension?
fn has_json_extension_exec(name: &Vec<u8>) -> (r: bool)
    ensures
        r == has_json_extension(name@),
{
    let n = name.len();
    if n <= 5 {
        return false;
    }
    let r = name[n - 5] == 46u8 && name[n - 4] == 106u8 && name[n - 3] == 115u8 && name[n - 2]
        == 111u8 && name[n - 1] == 110u8;
    assert(r == (name@.subrange(n - 5, n as int) =~= json_suffix()));
    r
}

/// Disk layout of one receipt chain: `<base_dir>/<resource_key>/` holds one
/// `<sequence:020>.json` file per receipt. Appends must carry rising
/// sequence numbers ([`FilesystemSink::check_append_order`]), so reading
/// the files in name order gives them back in append order.
pub struct FilesystemSink<P> {
    base_dir: String,
    resource_key: String,
    _phantom: core::marker::PhantomData<P>,
}

impl<P> FilesystemSink<P> {
    /// The base directory.
    pub closed spec fn base_dir_spec(&self) -> Seq<char> {
        self.base_dir@
    }

    /// The key of the chain's directory under the base directory.
    pub closed spec fn resource_key_spec(&self) -> Seq<char> {
        self.resource_key@
    }

    /// The layout for the chain `resource_key` under `base_dir`.
    pub fn new(base_dir: &str, resource_key: &str) -> (s: FilesystemSink<P>)
        ensures
            s.base_dir_spec() == base_dir@,
            s.resource_key_spec() == resource_key@,
    {
        FilesystemSink {
            base_dir: String::from_str(base_dir),
            resource_key: String::from_str(resource_key),
            _phantom: core::marker::PhantomData,
        }
    }

    /// The base directory.
    pub fn base_dir(&self) -> (s: &str)
        ensures
            s@ == self.base_dir_spec(),
    {
        self.base_dir.as_str()
    }

    /// The chain's directory name under the base directory.
    pub fn resource_key(&self) -> (s: &str)
        ensures
            s@ == self.resource_key_spec(),
    {
        self.resource_key.as_str()
    }

    /// The file name of the receipt with this sequence number.
    pub fn receipt_file_name(sequence: u64) -> (s: String)
        ensures
            s@ == receipt_file_name_text(sequence),
            s@.len() == 25,
    {
        proof {
            reveal_with_fuel(vstd::arithmetic::power::pow, 21);
            assert(vstd::arithmetic::power::pow(10, 20) == 100_000_000_000_000_000_000int);
            lemma_decimal_shape(sequence as nat, 20);
        }
        let digits = decimal_length(sequence);
        let mut s = String::new();
        let mut i: usize = digits;
        while i < 20
            invariant
                digits <= i <= 20,
                s@ == Seq::new((i - digits) as nat, |k: int| '0'),
            decreases 20 - i,
        {
            s.push('0');
            assert(s@ =~= Seq::new((i + 1 - digits) as nat, |k: int| '0'));
            i = i + 1;
        }
        push_decimal(&mut s, sequence);
        push_str(&mut s, ".json");
        proof {
            if digits == 20 {
                assert(Seq::new(0, |k: int| '0') + decimal(sequence as nat) =~= decimal(
                    sequence as nat,
                ));
            }
            assert(".json"@.len() == 5) by {
                reveal_strlit(".json");
            }
        }
        s
    }

    /// Whether a receipt with `sequence` may be written after the chain's
    /// last file, which holds `last_sequence` (none on an empty
    /// directory). Only a sequence past the last one is accepted, so the
    /// files' name order (see [`Self::select_receipt_files`]) stays the
    /// order they were appended in and no file is overwritten.
    pub fn check_append_order(last_sequence: Option<u64>, sequence: u64) -> (r: Result<
        (),
        SinkError,
    >)
        ensures
            r is Ok <==> (last_sequence matches Some(l) ==> l < sequence),
            r matches Err(e) ==> (e matches SinkError::Invariant(m) && m@ == out_of_order_text(
                last_sequence->0,
                sequence,
            )),
    {
        match last_sequence {
            Some(l) => {
                if l < sequence {
                    Ok(())
                } else {
                    let mut m = String::new();
                    push_str(&mut m, "sequence ");
                    push_decimal(&mut m, sequence);
                    push_str(&mut m, " does not follow ");
                    push_decimal(&mut m, l);
                    Err(SinkError::Invariant(m))
                }
            },
            None => Ok(()),
        }
    }

    /// The receipt files of a directory listing, in the order the sink
    /// reads them: the names with a `json` extension, sorted byte-wise.
    /// Zero padding makes this sequence order
    /// ([`crate::sink::lemma_receipt_file_names_ordered`]), and since
    /// [`Self::check_append_order`] admits only rising sequences, it is
    /// the order the receipts were appended in.
    pub fn select_receipt_files(names: &Vec<Vec<u8>>) -> (r: Vec<Vec<u8>>)
        ensures
            sorted_names(byte_strings(r@)),
            byte_strings(r@).to_multiset() == json_names(byte_strings(names@)).to_multiset(),
    {
        let ghost all = byte_strings(names@);
        let mut out: Vec<Vec<u8>> = Vec::new();
        let mut i: usize = 0;
        proof {
            assert(all.take(0) =~= Seq::<Seq<u8>>::empty());
            assert(json_names(all.take(0)) =~= Seq::<Seq<u8>>::empty());
            assert(byte_strings(out@) =~= Seq::<Seq<u8>>::empty());
        }
        while i < names.len()
            invariant
                i <= names.len(),
                all == byte_strings(names@),
                sorted_names(byte_strings(out@)),
                byte_strings(out@).to_multiset() == json_names(all.take(i as int)).to_multiset(),
            decreases names.len() - i,
        {
            let ghost before = byte_strings(out@);
            proof {
                assert(all.take(i + 1) =~= all.take(i as int) + seq![all[i as int]]);
                Seq::filter_distributes_over_add(
                    all.take(i as int),
                    seq![all[i as int]],
                    |n: Seq<u8>| has_json_extension(n),
                );
                reveal_with_fuel(Seq::filter, 2);
                assert(seq![all[i as int]].drop_last() =~= Seq::<Seq<u8>>::empty());
                if has_json_extension(all[i as int]) {
                    assert(json_names(all.take(i + 1)) =~= json_names(all.take(i as int)).push(
                        all[i as int],
                    ));
                } else {
                    assert(json_names(all.take(i + 1)) =~= json_names(all.take(i as int)));
                }
            }
            if has_json_extension_exec(&names[i]) {
                let name = copy_bytes(&names[i]);
                let mut j: usize = 0;
                while j < out.len() && bytes_le_exec(&out[j], &name)
                    invariant
                        j <= out.len(),
                        before == byte_strings(out@),
                        forall|k: int| 0 <= k < j ==> bytes_le(#[trigger] before[k], name@),
                    decreases out.len() - j,
                {
                    j = j + 1;
                }
                proof {
                    if j < out.len() {
                        lemma_bytes_le_total(before[j as int], name@);
                    }
                    assert forall|a: int, b: int|
                        0 <= a < b < before.len() + 1 implies bytes_le(
                        #[trigger] before.insert(j as int, name@)[a],
                        #[trigger] before.insert(j as int, name@)[b],
                    ) by {
                        let s = before.insert(j as int, name@);
                        if b < j {
                        } else if a < j && b == j {
                        } else if a < j && b > j {
                            assert(s[a] == before[a] && s[b] == before[b - 1]);
                        } else if a == j {
                            assert(s[b] == before[b - 1]);
                            if b - 1 == j {
                            } else {
                                lemma_bytes_le_transitive(name@, before[j as int], before[b - 1]);
                            }
                        } else {
                            assert(s[a] == before[a - 1] && s[b] == before[b - 1]);
                        }
                    }
                }
                out.insert(j, name);
                proof {
                    assert(byte_strings(out@) =~= before.insert(j as int, all[i as int]));
                    vstd::seq_lib::to_multiset_insert(before, j as int, all[i as int]);
                    vstd::seq_lib::to_multiset_build(json_names(all.take(i as int)), all[i as int]);
                }
            }
            i = i + 1;
        }
        assert(all.take(names.len() as int) =~= all);
        out
    }
}

/// Number of digits of the decimal rendering of `n`.
fn decimal_length(n: u64) -> (d: usize)
    ensures
        d == decimal(n as nat).len(),
    decreases n,
{
    proof {
        reveal_with_fuel(vstd::arithmetic::power::pow, 21);
        lemma_decimal_shape(n as nat, 20);
    }
    if n < 10 {
        1
    } else {
        decimal_length(n / 10) + 1
    }
}

/// The character a resource key uses for `c`: path-unsafe `/`, space and
/// `:` become `-`.
pub open spec fn key_char(c: char) -> char {
    if c == '/' || c == ' ' || c == ':' {
        '-'
    } else {
        c
    }
}

/// A stable resource key derived from a dotted identifier
/// (`rio/infra/prod-vpc` becomes `rio-infra-prod-vpc`).
pub fn resource_key_from_dotted(dotted: &str) -> (key: String)
    ensures
        key@ == dotted@.map_values(|c: char| key_char(c)),
{
    let mut key = String::new();
    for c in it: dotted.chars()
        invariant
            key@ == dotted@.take(it.index() as int).map_values(|c: char| key_char(c)),
            it.seq() == dotted@,
    {
        let mapped = if c == '/' || c == ' ' || c == ':' {
            '-'
        } else {
            c
        };
        key.push(mapped);
        assert(it.seq().take(it.index() + 1) == it.seq().take(it.index() as int).push(c));
    }
    key
}

} // verus!
