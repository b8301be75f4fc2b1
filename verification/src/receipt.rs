//! Typed receipts: one entry per reconcile tick.
//!
//! [`Receipt`] is generic over its [`Payload`]. Its identity is its
//! `content_hash`: the BLAKE3 digest of the canonical JSON text of every
//! field except the signature, so a signature can be attached without
//! changing what was signed.

use vstd::prelude::*;
use vstd::utf8::encode_utf8;

use crate::hash::{blake3_digest, ContentHash};
use crate::signing::{Signature, SignatureModel};
use crate::text::{
    decimal, hex_text, json_string, lemma_decimal_injective, lemma_hex_round_trip,
    lemma_json_string_then, lemma_decimal_shape,
    lemma_digits_then_text, lemma_strip_prefix, push_decimal, push_json_string, push_str,
};
use crate::time::Timestamp;

verus! {

// ─── Payload ───────────────────────────────────────────────────────

/// A receipt body. The chain never looks inside a payload: it only needs
/// its kind tag, its canonical JSON text and a faithful copy of it.
pub trait Payload: View + Clone + core::fmt::Debug + Send + Sync + Sized {
    /// Stable kind tag, recorded in every receipt.
    spec fn kind_spec() -> Seq<char>;

    /// Stable kind tag, recorded in every receipt.
    fn kind() -> (k: &'static str)
        ensures
            k@ == Self::kind_spec(),
    ;

    /// The canonical (compact) JSON text of a payload, or nothing when the
    /// payload cannot be encoded.
    spec fn json_spec(v: Self::V) -> Option<Seq<char>>;

    /// The canonical (compact) JSON text of this payload.
    fn to_json(&self) -> (r: Option<String>)
        ensures
            r matches Some(s) ==> Self::json_spec(self@) == Some(s@),
            r is None ==> Self::json_spec(self@) is None,
    ;

    /// A copy with the same model.
    fn duplicate(&self) -> (r: Self)
        ensures
            r@ == self@,
    ;
}

// ─── ResourceAddress ───────────────────────────────────────────────

/// Cluster + namespace + name address of a managed resource.
#[derive(Clone, Debug, PartialEq, Eq)]
pub struct ResourceAddress {
    pub cluster: String,
    pub namespace: String,
    pub name: String,
}

/// The model of a [`ResourceAddress`].
pub struct ResourceAddressModel {
    pub cluster: Seq<char>,
    pub namespace: Seq<char>,
    pub name: Seq<char>,
}

impl View for ResourceAddress {
    type V = ResourceAddressModel;

    open spec fn view(&self) -> ResourceAddressModel {
        ResourceAddressModel {
            cluster: self.cluster@,
            namespace: self.namespace@,
            name: self.name@,
        }
    }
}

/// `<cluster>/<namespace>/<name>`.
pub open spec fn dotted_text(a: ResourceAddressModel) -> Seq<char> {
    a.cluster + "/"@ + a.namespace + "/"@ + a.name
}

/// JSON object text of an address.
pub open spec fn address_json(a: ResourceAddressModel) -> Seq<char> {
    "{\"cluster\":"@ + json_string(a.cluster) + ",\"namespace\":"@ + json_string(a.namespace)
        + ",\"name\":"@ + json_string(a.name) + "}"@
}

/// An address's JSON text followed by more text is read back
/// unambiguously: it gives back all three parts, and the rest is determined.
pub proof fn lemma_address_json_then(
    a: ResourceAddressModel,
    r1: Seq<char>,
    b: ResourceAddressModel,
    r2: Seq<char>,
)
    requires
        address_json(a) + r1 == address_json(b) + r2,
    ensures
        a == b,
        r1 == r2,
{
    let p1 = "{\"cluster\":"@;
    let p2 = ",\"namespace\":"@;
    let p3 = ",\"name\":"@;
    let p4 = "}"@;
    let ta3 = p3 + (json_string(a.name) + (p4 + r1));
    let tb3 = p3 + (json_string(b.name) + (p4 + r2));
    let ta2 = p2 + (json_string(a.namespace) + ta3);
    let tb2 = p2 + (json_string(b.namespace) + tb3);
    assert(address_json(a) + r1 =~= p1 + (json_string(a.cluster) + ta2));
    assert(address_json(b) + r2 =~= p1 + (json_string(b.cluster) + tb2));
    lemma_strip_prefix(p1, json_string(a.cluster) + ta2, json_string(b.cluster) + tb2);
    lemma_json_string_then(a.cluster, ta2, b.cluster, tb2);
    lemma_strip_prefix(p2, json_string(a.namespace) + ta3, json_string(b.namespace) + tb3);
    lemma_json_string_then(a.namespace, ta3, b.namespace, tb3);
    lemma_strip_prefix(p3, json_string(a.name) + (p4 + r1), json_string(b.name) + (p4 + r2));
    lemma_json_string_then(a.name, p4 + r1, b.name, p4 + r2);
    lemma_strip_prefix(p4, r1, r2);
}

impl ResourceAddress {
    /// Build an address from its three parts.
    pub fn new(cluster: &str, namespace: &str, name: &str) -> (a: ResourceAddress)
        ensures
            a.cluster@ == cluster@,
            a.namespace@ == namespace@,
            a.name@ == name@,
    {
        ResourceAddress {
            cluster: String::from_str(cluster),
            namespace: String::from_str(namespace),
            name: String::from_str(name),
        }
    }

    /// Dotted form `<cluster>/<namespace>/<name>`, used in chain keys and
    /// log messages.
    pub fn dotted(&self) -> (s: String)
        ensures
            s@ == dotted_text(self@),
    {
        let mut s = String::new();
        push_str(&mut s, self.cluster.as_str());
        push_str(&mut s, "/");
        push_str(&mut s, self.namespace.as_str());
        push_str(&mut s, "/");
        push_str(&mut s, self.name.as_str());
        s
    }

    /// A copy with the same model.
    pub fn duplicate(&self) -> (r: ResourceAddress)
        ensures
            r@ == self@,
    {
        ResourceAddress {
            cluster: self.cluster.clone(),
            namespace: self.namespace.clone(),
            name: self.name.clone(),
        }
    }

    /// Append the JSON object text of this address.
    fn push_json(&self, out: &mut String)
        ensures
            final(out)@ == old(out)@ + address_json(self@),
    {
        push_str(out, "{\"cluster\":");
        push_json_string(out, self.cluster.as_str());
        push_str(out, ",\"namespace\":");
        push_json_string(out, self.namespace.as_str());
        push_str(out, ",\"name\":");
        push_json_string(out, self.name.as_str());
        push_str(out, "}");
    }
}

// ─── ChangeSummary ─────────────────────────────────────────────────

/// Per-tick change summary: counts of planned resource changes.
#[derive(Clone, Copy, Debug, PartialEq, Eq, Structural)]
pub struct ChangeSummary {
    pub create: u32,
    pub update: u32,
    pub delete: u32,
    pub no_op: u32,
}

/// A summary has changes exactly when it counts a create, an update or a
/// delete; its changes are its total less its no-ops.
pub proof fn lemma_changes_are_creates_updates_deletes(s: ChangeSummary)
    ensures
        s.changes_spec() > 0 <==> (s.create > 0 || s.update > 0 || s.delete > 0),
        s.changes_spec() == s.total_spec() - s.no_op,
        s.total_spec() == s.create + s.update + s.delete + s.no_op,
{
}

/// JSON object text of a change summary.
pub open spec fn summary_json(s: ChangeSummary) -> Seq<char> {
    "{\"create\":"@ + decimal(s.create as nat) + ",\"update\":"@ + decimal(s.update as nat)
        + ",\"delete\":"@ + decimal(s.delete as nat) + ",\"noOp\":"@ + decimal(s.no_op as nat)
        + "}"@
}

/// Two summaries with the same JSON text are the same summary: every count
/// is written, each under its own key, so the text determines all four.
pub proof fn lemma_summary_json_injective(a: ChangeSummary, b: ChangeSummary)
    requires
        summary_json(a) == summary_json(b),
    ensures
        a == b,
{
    assert(summary_json(a) + Seq::<char>::empty() =~= summary_json(a));
    assert(summary_json(b) + Seq::<char>::empty() =~= summary_json(b));
    lemma_summary_json_then(a, Seq::<char>::empty(), b, Seq::<char>::empty());
}

/// A summary's JSON text followed by more text is read back unambiguously.
#[verifier::rlimit(60)]
#[verifier::spinoff_prover]
pub proof fn lemma_summary_json_then(a: ChangeSummary, r1: Seq<char>, b: ChangeSummary, r2: Seq<char>)
    requires
        summary_json(a) + r1 == summary_json(b) + r2,
    ensures
        a == b,
        r1 == r2,
{
    let p1 = "{\"create\":"@;
    let p2 = ",\"update\":"@;
    let p3 = ",\"delete\":"@;
    let p4 = ",\"noOp\":"@;
    let p5 = "}"@;
    reveal_strlit("{\"create\":");
    reveal_strlit(",\"update\":");
    reveal_strlit(",\"delete\":");
    reveal_strlit(",\"noOp\":");
    reveal_strlit("}");
    let ca = decimal(a.create as nat);
    let ua = decimal(a.update as nat);
    let da = decimal(a.delete as nat);
    let na = decimal(a.no_op as nat);
    let cb = decimal(b.create as nat);
    let ub = decimal(b.update as nat);
    let db = decimal(b.delete as nat);
    let nb = decimal(b.no_op as nat);
    lemma_decimal_shape(a.create as nat, 1);
    lemma_decimal_shape(a.update as nat, 1);
    lemma_decimal_shape(a.delete as nat, 1);
    lemma_decimal_shape(a.no_op as nat, 1);
    lemma_decimal_shape(b.create as nat, 1);
    lemma_decimal_shape(b.update as nat, 1);
    lemma_decimal_shape(b.delete as nat, 1);
    lemma_decimal_shape(b.no_op as nat, 1);
    let ra4 = p4 + (na + (p5 + r1));
    let rb4 = p4 + (nb + (p5 + r2));
    let ra3 = p3 + (da + ra4);
    let rb3 = p3 + (db + rb4);
    let ra2 = p2 + (ua + ra3);
    let rb2 = p2 + (ub + rb3);
    assert(ra2[0] == ',' && rb2[0] == ',');
    assert(ra3[0] == ',' && rb3[0] == ',');
    assert(ra4[0] == ',' && rb4[0] == ',');
    assert((p5 + r1)[0] == '}' && (p5 + r2)[0] == '}');
    assert(summary_json(a) + r1 =~= p1 + (ca + ra2));
    assert(summary_json(b) + r2 =~= p1 + (cb + rb2));
    lemma_strip_prefix(p1, ca + ra2, cb + rb2);
    lemma_digits_then_text(ca, ra2, cb, rb2);
    lemma_decimal_injective(a.create as nat, b.create as nat);
    lemma_strip_prefix(p2, ua + ra3, ub + rb3);
    lemma_digits_then_text(ua, ra3, ub, rb3);
    lemma_decimal_injective(a.update as nat, b.update as nat);
    lemma_strip_prefix(p3, da + ra4, db + rb4);
    lemma_digits_then_text(da, ra4, db, rb4);
    lemma_decimal_injective(a.delete as nat, b.delete as nat);
    lemma_strip_prefix(p4, na + (p5 + r1), nb + (p5 + r2));
    lemma_digits_then_text(na, p5 + r1, nb, p5 + r2);
    lemma_decimal_injective(a.no_op as nat, b.no_op as nat);
    lemma_strip_prefix(p5, r1, r2);
}

impl ChangeSummary {
    /// Sum of all four counts.
    pub open spec fn total_spec(self) -> int {
        self.create + self.update + self.delete + self.no_op
    }

    /// Number of counted changes that are not no-ops.
    pub open spec fn changes_spec(self) -> int {
        self.create + self.update + self.delete
    }

    /// Total number of counted resources.
    pub fn total(&self) -> (t: u32)
        requires
            self.total_spec() <= u32::MAX,
        ensures
            t == self.total_spec(),
            t == self.create + self.update + self.delete + self.no_op,
    {
        self.create + self.update + self.delete + self.no_op
    }

    /// Whether any create, update or delete is pending.
    pub fn has_changes(&self) -> (b: bool)
        requires
            self.changes_spec() <= u32::MAX,
        ensures
            b == (self.changes_spec() > 0),
            b == (self.create + self.update + self.delete > 0),
    {
        self.create + self.update + self.delete > 0
    }

    /// Append the JSON object text of this summary.
    fn push_json(&self, out: &mut String)
        ensures
            final(out)@ == old(out)@ + summary_json(*self),
    {
        push_str(out, "{\"create\":");
        push_decimal(out, self.create as u64);
        push_str(out, ",\"update\":");
        push_decimal(out, self.update as u64);
        push_str(out, ",\"delete\":");
        push_decimal(out, self.delete as u64);
        push_str(out, ",\"noOp\":");
        push_decimal(out, self.no_op as u64);
        push_str(out, "}");
    }
}

impl Default for ChangeSummary {
    fn default() -> (s: Self)
        ensures
            s == (ChangeSummary { create: 0, update: 0, delete: 0, no_op: 0 }),
    {
        ChangeSummary { create: 0, update: 0, delete: 0, no_op: 0 }
    }
}

// ─── OutcomePayload ────────────────────────────────────────────────

/// The lava reconcile-tick payload.
#[derive(Clone, Debug, PartialEq, Eq)]
pub struct OutcomePayload {
    /// Cluster + namespace + name address.
    pub resource: ResourceAddress,
    /// Hash of the architecture spec at this tick.
    pub spec_hash: ContentHash,
    /// Hash of the rendered terraform JSON.
    pub terraform_json_hash: ContentHash,
    /// The plan identifier, when a plan was made.
    pub plan_id: Option<String>,
    /// Phase name (Pending, Synthesized, Planned, Applied, Drifted, ...).
    pub phase: String,
    /// Create / update / delete / no-op counts.
    pub change_summary: ChangeSummary,
    /// Free-text diagnostics.
    pub diagnostics: Vec<String>,
}

/// The model of an [`OutcomePayload`].
pub struct OutcomePayloadModel {
    pub resource: ResourceAddressModel,
    pub spec_hash: Seq<u8>,
    pub terraform_json_hash: Seq<u8>,
    pub plan_id: Option<Seq<char>>,
    pub phase: Seq<char>,
    pub change_summary: ChangeSummary,
    pub diagnostics: Seq<Seq<char>>,
}

impl View for OutcomePayload {
    type V = OutcomePayloadModel;

    open spec fn view(&self) -> OutcomePayloadModel {
        OutcomePayloadModel {
            resource: self.resource@,
            spec_hash: self.spec_hash@,
            terraform_json_hash: self.terraform_json_hash@,
            plan_id: match self.plan_id {
                Some(p) => Some(p@),
                None => None,
            },
            phase: self.phase@,
            change_summary: self.change_summary,
            diagnostics: self.diagnostics@.map_values(|d: String| d@),
        }
    }
}

/// Comma-separated JSON string literals of `items`.
pub open spec fn json_string_items(items: Seq<Seq<char>>) -> Seq<char>
    decreases items.len(),
{
    if items.len() == 0 {
        Seq::empty()
    } else if items.len() == 1 {
        json_string(items[0])
    } else {
        json_string_items(items.drop_last()) + ","@ + json_string(items.last())
    }
}

/// JSON array text of a list of strings.
pub open spec fn json_string_array(items: Seq<Seq<char>>) -> Seq<char> {
    "["@ + json_string_items(items) + "]"@
}

/// JSON text of an optional string (`null` when absent).
pub open spec fn json_optional_string(s: Option<Seq<char>>) -> Seq<char> {
    match s {
        Some(t) => json_string(t),
        None => "null"@,
    }
}

/// The canonical JSON text of an outcome payload: its fields in declaration
/// order under camelCase keys, compact.
pub open spec fn outcome_json(p: OutcomePayloadModel) -> Seq<char> {
    "{\"resource\":"@ + address_json(p.resource) + ",\"specHash\":"@ + json_string(
        hex_text(p.spec_hash),
    ) + ",\"terraformJsonHash\":"@ + json_string(hex_text(p.terraform_json_hash))
        + ",\"planId\":"@ + json_optional_string(p.plan_id) + ",\"phase\":"@ + json_string(p.phase)
        + ",\"changeSummary\":"@ + summary_json(p.change_summary) + ",\"diagnostics\":"@
        + json_string_array(p.diagnostics) + "}"@
}

/// The items of a list of two or more, front first: the first literal, a
/// comma, then the rest.
proof fn lemma_json_string_items_front(items: Seq<Seq<char>>)
    requires
        items.len() >= 2,
    ensures
        json_string_items(items) == json_string(items[0]) + ","@ + json_string_items(
            items.drop_first(),
        ),
    decreases items.len(),
{
    let rest = items.drop_first();
    let dl = items.drop_last();
    if items.len() == 2 {
        assert(dl =~= seq![items[0]]);
        assert(rest =~= seq![items[1]]);
        assert(json_string_items(dl) == json_string(items[0]));
        assert(json_string_items(rest) == json_string(items[1]));
    } else {
        lemma_json_string_items_front(dl);
        assert(dl.drop_first() =~= rest.drop_last());
        assert(dl[0] == items[0]);
        assert(rest.last() == items.last());
        let j0 = json_string(items[0]);
        let mid = json_string_items(rest.drop_last());
        let jl = json_string(items.last());
        assert(json_string_items(items) == json_string_items(dl) + ","@ + jl);
        assert(json_string_items(dl) == j0 + ","@ + mid);
        assert(json_string_items(rest) == mid + ","@ + jl);
        assert(j0 + ","@ + mid + ","@ + jl =~= j0 + ","@ + (mid + ","@ + jl));
    }
}

/// A list's items followed by `]` and more text are read back
/// unambiguously.
proof fn lemma_json_string_items_then(
    x: Seq<Seq<char>>,
    r1: Seq<char>,
    y: Seq<Seq<char>>,
    r2: Seq<char>,
)
    requires
        json_string_items(x) + ("]"@ + r1) == json_string_items(y) + ("]"@ + r2),
    ensures
        x == y,
        r1 == r2,
    decreases x.len(),
{
    reveal_strlit("]");
    reveal_strlit(",");
    let lhs = json_string_items(x) + ("]"@ + r1);
    let rhs = json_string_items(y) + ("]"@ + r2);
    // the text after the first literal of a non-empty list
    let tx = if x.len() == 1 { "]"@ + r1 } else { ","@ + (json_string_items(x.drop_first()) + ("]"@ + r1)) };
    let ty = if y.len() == 1 { "]"@ + r2 } else { ","@ + (json_string_items(y.drop_first()) + ("]"@ + r2)) };
    if x.len() >= 2 {
        lemma_json_string_items_front(x);
    }
    if y.len() >= 2 {
        lemma_json_string_items_front(y);
    }
    if x.len() > 0 {
        assert(lhs =~= json_string(x[0]) + tx);
        assert(lhs[0] == '"');
    } else {
        assert(lhs =~= "]"@ + r1);
        assert(lhs[0] == ']');
    }
    if y.len() > 0 {
        assert(rhs =~= json_string(y[0]) + ty);
        assert(rhs[0] == '"');
    } else {
        assert(rhs =~= "]"@ + r2);
        assert(rhs[0] == ']');
    }
    if x.len() == 0 && y.len() == 0 {
        lemma_strip_prefix("]"@, r1, r2);
    } else if x.len() > 0 && y.len() > 0 {
        lemma_json_string_then(x[0], tx, y[0], ty);
        assert(tx[0] == (if x.len() == 1 { ']' } else { ',' }));
        assert(ty[0] == (if y.len() == 1 { ']' } else { ',' }));
        if x.len() == 1 {
            lemma_strip_prefix("]"@, r1, r2);
            assert(x =~= y);
        } else {
            lemma_strip_prefix(
                ","@,
                json_string_items(x.drop_first()) + ("]"@ + r1),
                json_string_items(y.drop_first()) + ("]"@ + r2),
            );
            lemma_json_string_items_then(x.drop_first(), r1, y.drop_first(), r2);
            assert(x =~= seq![x[0]] + x.drop_first());
            assert(y =~= seq![y[0]] + y.drop_first());
        }
    }
}

/// A list's JSON array text followed by more text is read back
/// unambiguously.
pub proof fn lemma_json_string_array_then(
    x: Seq<Seq<char>>,
    r1: Seq<char>,
    y: Seq<Seq<char>>,
    r2: Seq<char>,
)
    requires
        json_string_array(x) + r1 == json_string_array(y) + r2,
    ensures
        x == y,
        r1 == r2,
{
    assert(json_string_array(x) + r1 =~= "["@ + (json_string_items(x) + ("]"@ + r1)));
    assert(json_string_array(y) + r2 =~= "["@ + (json_string_items(y) + ("]"@ + r2)));
    lemma_strip_prefix("["@, json_string_items(x) + ("]"@ + r1), json_string_items(y) + ("]"@ + r2));
    lemma_json_string_items_then(x, r1, y, r2);
}

/// An optional string's JSON text followed by more text is read back
/// unambiguously.
pub proof fn lemma_json_optional_string_then(
    a: Option<Seq<char>>,
    r1: Seq<char>,
    b: Option<Seq<char>>,
    r2: Seq<char>,
)
    requires
        json_optional_string(a) + r1 == json_optional_string(b) + r2,
    ensures
        a == b,
        r1 == r2,
{
    reveal_strlit("null");
    let lhs = json_optional_string(a) + r1;
    let rhs = json_optional_string(b) + r2;
    assert(lhs[0] == (if a is Some { '"' } else { 'n' }));
    assert(rhs[0] == (if b is Some { '"' } else { 'n' }));
    match (a, b) {
        (Some(x), Some(y)) => lemma_json_string_then(x, r1, y, r2),
        (None, None) => lemma_strip_prefix("null"@, r1, r2),
        _ => {},
    }
}

/// A digest's hex literal followed by more text is read back
/// unambiguously.
proof fn lemma_hex_literal_then(a: Seq<u8>, r1: Seq<char>, b: Seq<u8>, r2: Seq<char>)
    requires
        json_string(hex_text(a)) + r1 == json_string(hex_text(b)) + r2,
    ensures
        a == b,
        r1 == r2,
{
    lemma_json_string_then(hex_text(a), r1, hex_text(b), r2);
    lemma_hex_round_trip(a);
    lemma_hex_round_trip(b);
}

/// The canonical JSON text of a payload from its plan identifier on.
spec fn outcome_json_rest(p: OutcomePayloadModel) -> Seq<char> {
    ",\"planId\":"@ + (json_optional_string(p.plan_id) + (",\"phase\":"@ + (json_string(p.phase) + (
    ",\"changeSummary\":"@ + (summary_json(p.change_summary) + (",\"diagnostics\":"@ + (
    json_string_array(p.diagnostics) + "}"@)))))))
}

/// The text from the plan identifier on gives back the last four fields.
#[verifier::rlimit(40)]
proof fn lemma_outcome_json_rest_injective(a: OutcomePayloadModel, b: OutcomePayloadModel)
    requires
        outcome_json_rest(a) == outcome_json_rest(b),
    ensures
        a.plan_id == b.plan_id,
        a.phase == b.phase,
        a.change_summary == b.change_summary,
        a.diagnostics == b.diagnostics,
{
    let q3 = ",\"planId\":"@;
    let q4 = ",\"phase\":"@;
    let q5 = ",\"changeSummary\":"@;
    let q6 = ",\"diagnostics\":"@;
    let q7 = "}"@;
    let a6 = q6 + (json_string_array(a.diagnostics) + q7);
    let b6 = q6 + (json_string_array(b.diagnostics) + q7);
    let a5 = q5 + (summary_json(a.change_summary) + a6);
    let b5 = q5 + (summary_json(b.change_summary) + b6);
    let a4 = q4 + (json_string(a.phase) + a5);
    let b4 = q4 + (json_string(b.phase) + b5);
    lemma_strip_prefix(q3, json_optional_string(a.plan_id) + a4, json_optional_string(b.plan_id) + b4);
    lemma_json_optional_string_then(a.plan_id, a4, b.plan_id, b4);
    lemma_strip_prefix(q4, json_string(a.phase) + a5, json_string(b.phase) + b5);
    lemma_json_string_then(a.phase, a5, b.phase, b5);
    lemma_strip_prefix(q5, summary_json(a.change_summary) + a6, summary_json(b.change_summary) + b6);
    lemma_summary_json_then(a.change_summary, a6, b.change_summary, b6);
    lemma_strip_prefix(q6, json_string_array(a.diagnostics) + q7, json_string_array(b.diagnostics) + q7);
    lemma_json_string_array_then(a.diagnostics, q7, b.diagnostics, q7);
}

/// The canonical JSON text of a payload, grouped from the right.
#[verifier::rlimit(100)]
#[verifier::spinoff_prover]
proof fn lemma_outcome_json_grouped(p: OutcomePayloadModel)
    ensures
        outcome_json(p) == "{\"resource\":"@ + (address_json(p.resource) + (",\"specHash\":"@ + (
        json_string(hex_text(p.spec_hash)) + (",\"terraformJsonHash\":"@ + (json_string(
            hex_text(p.terraform_json_hash),
        ) + outcome_json_rest(p)))))),
{
    let q0 = "{\"resource\":"@;
    let q1 = ",\"specHash\":"@;
    let q2 = ",\"terraformJsonHash\":"@;
    let q3 = ",\"planId\":"@;
    let q4 = ",\"phase\":"@;
    let q5 = ",\"changeSummary\":"@;
    let q6 = ",\"diagnostics\":"@;
    let q7 = "}"@;
    let ad = address_json(p.resource);
    let sh = json_string(hex_text(p.spec_hash));
    let th = json_string(hex_text(p.terraform_json_hash));
    let pl = json_optional_string(p.plan_id);
    let ph = json_string(p.phase);
    let cs = summary_json(p.change_summary);
    let dg = json_string_array(p.diagnostics);
    assert(outcome_json(p) == q0 + ad + q1 + sh + q2 + th + q3 + pl + q4 + ph + q5 + cs + q6 + dg + q7);
    assert(outcome_json_rest(p) == q3 + (pl + (q4 + (ph + (q5 + (cs + (q6 + (dg + q7))))))));
    assert(q0 + ad + q1 + sh + q2 + th + q3 + pl + q4 + ph + q5 + cs + q6 + dg + q7 =~= q0 + (ad + (q1 + (sh + (q2 + (th + (q3 + (pl + (q4 + (ph + (q5 + (cs + (q6 + (dg + q7))))))))))))));
}

/// Two payloads with the same canonical JSON text are the same payload:
/// every field is written, so the text (and with it the content hash taken
/// over it) covers all of them.
#[verifier::rlimit(100)]
#[verifier::spinoff_prover]
pub proof fn lemma_outcome_json_injective(a: OutcomePayloadModel, b: OutcomePayloadModel)
    requires
        outcome_json(a) == outcome_json(b),
    ensures
        a == b,
{
    let q0 = "{\"resource\":"@;
    let q1 = ",\"specHash\":"@;
    let q2 = ",\"terraformJsonHash\":"@;
    let a3 = outcome_json_rest(a);
    let b3 = outcome_json_rest(b);
    let a2 = q2 + (json_string(hex_text(a.terraform_json_hash)) + a3);
    let b2 = q2 + (json_string(hex_text(b.terraform_json_hash)) + b3);
    let a1 = q1 + (json_string(hex_text(a.spec_hash)) + a2);
    let b1 = q1 + (json_string(hex_text(b.spec_hash)) + b2);
    lemma_outcome_json_grouped(a);
    lemma_outcome_json_grouped(b);
    lemma_strip_prefix(q0, address_json(a.resource) + a1, address_json(b.resource) + b1);
    lemma_address_json_then(a.resource, a1, b.resource, b1);
    lemma_strip_prefix(q1, json_string(hex_text(a.spec_hash)) + a2, json_string(hex_text(b.spec_hash)) + b2);
    lemma_hex_literal_then(a.spec_hash, a2, b.spec_hash, b2);
    lemma_strip_prefix(
        q2,
        json_string(hex_text(a.terraform_json_hash)) + a3,
        json_string(hex_text(b.terraform_json_hash)) + b3,
    );
    lemma_hex_literal_then(a.terraform_json_hash, a3, b.terraform_json_hash, b3);
    lemma_outcome_json_rest_injective(a, b);
}

/// Append the JSON array text of `items`.
fn push_json_string_array(out: &mut String, items: &Vec<String>)
    ensures
        final(out)@ == old(out)@ + json_string_array(items@.map_values(|d: String| d@)),
{
    let ghost start = old(out)@;
    let ghost all = items@.map_values(|d: String| d@);
    push_str(out, "[");
    let mut i: usize = 0;
    while i < items.len()
        invariant
            i <= items.len(),
            all == items@.map_values(|d: String| d@),
            out@ == start + "["@ + json_string_items(all.take(i as int)),
        decreases items.len() - i,
    {
        if i > 0 {
            push_str(out, ",");
        }
        push_json_string(out, items[i].as_str());
        assert(all.take(i + 1).drop_last() =~= all.take(i as int));
        assert(all.take(i + 1).last() == items@[i as int]@);
        if i == 0 {
            assert(all.take(0) =~= Seq::<Seq<char>>::empty());
        }
        i = i + 1;
    }
    assert(all.take(items.len() as int) =~= all);
    push_str(out, "]");
}

impl OutcomePayload {
    /// The kind tag of outcome receipts.
    pub const KIND: &'static str = "lava.outcome";

    /// Append the canonical JSON text of this payload.
    #[verifier::rlimit(40)]
    #[verifier::spinoff_prover]
    fn push_json(&self, out: &mut String)
        ensures
            final(out)@ == old(out)@ + outcome_json(self@),
    {
        push_str(out, "{\"resource\":");
        self.resource.push_json(out);
        push_str(out, ",\"specHash\":");
        let spec_hex = self.spec_hash.hex();
        push_json_string(out, spec_hex.as_str());
        push_str(out, ",\"terraformJsonHash\":");
        let tf_hex = self.terraform_json_hash.hex();
        push_json_string(out, tf_hex.as_str());
        push_str(out, ",\"planId\":");
        match &self.plan_id {
            Some(p) => push_json_string(out, p.as_str()),
            None => push_str(out, "null"),
        }
        push_str(out, ",\"phase\":");
        push_json_string(out, self.phase.as_str());
        push_str(out, ",\"changeSummary\":");
        self.change_summary.push_json(out);
        push_str(out, ",\"diagnostics\":");
        push_json_string_array(out, &self.diagnostics);
        push_str(out, "}");
    }
}

impl Payload for OutcomePayload {
    open spec fn kind_spec() -> Seq<char> {
        "lava.outcome"@
    }

    fn kind() -> (k: &'static str) {
        "lava.outcome"
    }

    open spec fn json_spec(v: OutcomePayloadModel) -> Option<Seq<char>> {
        Some(outcome_json(v))
    }

    fn to_json(&self) -> (r: Option<String>) {
        let mut s = String::new();
        self.push_json(&mut s);
        Some(s)
    }

    fn duplicate(&self) -> (r: OutcomePayload) {
        let mut diagnostics: Vec<String> = Vec::new();
        let mut i: usize = 0;
        while i < self.diagnostics.len()
            invariant
                i <= self.diagnostics.len(),
                diagnostics@.len() == i,
                forall|j: int| 0 <= j < i ==> #[trigger] diagnostics@[j]@ == self.diagnostics@[j]@,
            decreases self.diagnostics.len() - i,
        {
            diagnostics.push(self.diagnostics[i].clone());
            i = i + 1;
        }
        let r = OutcomePayload {
            resource: self.resource.duplicate(),
            spec_hash: self.spec_hash,
            terraform_json_hash: self.terraform_json_hash,
            plan_id: match &self.plan_id {
                Some(p) => Some(p.clone()),
                None => None,
            },
            phase: self.phase.clone(),
            change_summary: self.change_summary,
            diagnostics,
        };
        assert(r@.diagnostics =~= self@.diagnostics);
        r
    }
}

// ─── Receipt ───────────────────────────────────────────────────────

/// One linked entry of a chain.
#[derive(Clone, Debug)]
pub struct Receipt<P> {
    /// Position in the chain: 0 for the genesis receipt, then +1 each.
    pub sequence: u64,
    /// When the receipt was sealed.
    pub timestamp: Timestamp,
    /// The payload's kind tag.
    pub kind: String,
    /// `content_hash` of the previous receipt; the genesis sentinel for the
    /// first one.
    pub prev_hash: ContentHash,
    /// The typed body.
    pub payload: P,
    /// Signature over `content_hash`, or [`Signature::None`].
    pub signature: Signature,
    /// BLAKE3 of the canonical JSON of every field above but the signature.
    pub content_hash: ContentHash,
}

/// The model of a [`Receipt`].
pub struct ReceiptModel<V> {
    pub sequence: u64,
    pub timestamp: Timestamp,
    pub kind: Seq<char>,
    pub prev_hash: Seq<u8>,
    pub payload: V,
    pub signature: SignatureModel,
    pub content_hash: Seq<u8>,
}

impl<P: Payload> View for Receipt<P> {
    type V = ReceiptModel<P::V>;

    open spec fn view(&self) -> ReceiptModel<P::V> {
        ReceiptModel {
            sequence: self.sequence,
            timestamp: self.timestamp,
            kind: self.kind@,
            prev_hash: self.prev_hash@,
            payload: self.payload@,
            signature: self.signature@,
            content_hash: self.content_hash@,
        }
    }
}

/// The canonical JSON text that a content hash is taken over: sequence,
/// timestamp, kind, previous hash and payload, in that order.
pub open spec fn prehash_json(
    sequence: u64,
    time: Seq<char>,
    kind: Seq<char>,
    prev_hash: Seq<u8>,
    payload: Seq<char>,
) -> Seq<char> {
    "{\"sequence\":"@ + decimal(sequence as nat) + ",\"timestamp\":"@ + json_string(time)
        + ",\"kind\":"@ + json_string(kind) + ",\"prevHash\":"@ + json_string(hex_text(prev_hash))
        + ",\"payload\":"@ + payload + "}"@
}

/// The text a content hash is taken over determines every field it covers:
/// equal texts come from the same sequence number, timestamp text, kind,
/// previous hash and payload text.
#[verifier::rlimit(100)]
#[verifier::spinoff_prover]
pub proof fn lemma_prehash_json_injective(
    s1: u64,
    t1: Seq<char>,
    k1: Seq<char>,
    h1: Seq<u8>,
    p1: Seq<char>,
    s2: u64,
    t2: Seq<char>,
    k2: Seq<char>,
    h2: Seq<u8>,
    p2: Seq<char>,
)
    requires
        prehash_json(s1, t1, k1, h1, p1) == prehash_json(s2, t2, k2, h2, p2),
    ensures
        s1 == s2,
        t1 == t2,
        k1 == k2,
        h1 == h2,
        p1 == p2,
{
    let q0 = "{\"sequence\":"@;
    let q1 = ",\"timestamp\":"@;
    let q2 = ",\"kind\":"@;
    let q3 = ",\"prevHash\":"@;
    let q4 = ",\"payload\":"@;
    let q5 = "}"@;
    reveal_strlit(",\"timestamp\":");
    let d1 = decimal(s1 as nat);
    let d2 = decimal(s2 as nat);
    lemma_decimal_shape(s1 as nat, 1);
    lemma_decimal_shape(s2 as nat, 1);
    let a3 = q3 + (json_string(hex_text(h1)) + (q4 + (p1 + q5)));
    let b3 = q3 + (json_string(hex_text(h2)) + (q4 + (p2 + q5)));
    let a2 = q2 + (json_string(k1) + a3);
    let b2 = q2 + (json_string(k2) + b3);
    let a1 = q1 + (json_string(t1) + a2);
    let b1 = q1 + (json_string(t2) + b2);
    assert(prehash_json(s1, t1, k1, h1, p1) =~= q0 + (d1 + a1));
    assert(prehash_json(s2, t2, k2, h2, p2) =~= q0 + (d2 + b1));
    assert(a1[0] == ',' && b1[0] == ',');
    lemma_strip_prefix(q0, d1 + a1, d2 + b1);
    lemma_digits_then_text(d1, a1, d2, b1);
    lemma_decimal_injective(s1 as nat, s2 as nat);
    lemma_strip_prefix(q1, json_string(t1) + a2, json_string(t2) + b2);
    lemma_json_string_then(t1, a2, t2, b2);
    lemma_strip_prefix(q2, json_string(k1) + a3, json_string(k2) + b3);
    lemma_json_string_then(k1, a3, k2, b3);
    lemma_strip_prefix(q3, json_string(hex_text(h1)) + (q4 + (p1 + q5)), json_string(hex_text(h2)) + (q4 + (p2 + q5)));
    lemma_hex_literal_then(h1, q4 + (p1 + q5), h2, q4 + (p2 + q5));
    lemma_strip_prefix(q4, p1 + q5, p2 + q5);
    assert(p1 =~= (p1 + q5).subrange(0, p1.len() as int));
    assert(p2 =~= (p2 + q5).subrange(0, p2.len() as int));
}

/// The content hash of a receipt with these fields: BLAKE3 of the UTF-8
/// bytes of the canonical JSON text, or nothing when the payload cannot be
/// encoded.
pub open spec fn content_hash_spec<P: Payload>(
    sequence: u64,
    timestamp: Timestamp,
    kind: Seq<char>,
    prev_hash: Seq<u8>,
    payload: P::V,
) -> Option<Seq<u8>> {
    match (timestamp.text(), P::json_spec(payload)) {
        (Some(t), Some(p)) => Some(
            blake3_digest(encode_utf8(prehash_json(sequence, t, kind, prev_hash, p))),
        ),
        _ => None,
    }
}

/// The content hash that a receipt's other fields call for: every field
/// but the signature, the stored kind included.
pub open spec fn rehash<P: Payload>(r: ReceiptModel<P::V>) -> Option<Seq<u8>> {
    content_hash_spec::<P>(r.sequence, r.timestamp, r.kind, r.prev_hash, r.payload)
}

/// The error text for a payload without a JSON encoding.
pub open spec fn unencodable_payload_text() -> Seq<char> {
    "payload has no JSON encoding"@
}

/// The content hash over the given fields.
fn hash_fields<P: Payload>(
    sequence: u64,
    timestamp: Timestamp,
    kind: &str,
    prev_hash: ContentHash,
    payload: &P,
) -> (r: Result<ContentHash, String>)
    ensures
        r is Ok <==> content_hash_spec::<P>(sequence, timestamp, kind@, prev_hash@, payload@) is Some,
        r matches Ok(h) ==> content_hash_spec::<P>(sequence, timestamp, kind@, prev_hash@, payload@)
            == Some(h@),
        r matches Err(m) ==> m@ == unencodable_payload_text(),
{
    match payload.to_json() {
        None => Err(String::from_str("payload has no JSON encoding")),
        Some(payload_json) => {
            let mut text = String::new();
            push_str(&mut text, "{\"sequence\":");
            push_decimal(&mut text, sequence);
            push_str(&mut text, ",\"timestamp\":");
            let time = timestamp.rfc3339();
            push_json_string(&mut text, time.as_str());
            push_str(&mut text, ",\"kind\":");
            push_json_string(&mut text, kind);
            push_str(&mut text, ",\"prevHash\":");
            let prev_hex = prev_hash.hex();
            push_json_string(&mut text, prev_hex.as_str());
            push_str(&mut text, ",\"payload\":");
            push_str(&mut text, payload_json.as_str());
            push_str(&mut text, "}");
            Ok(ContentHash::of(text.as_str().as_bytes()))
        },
    }
}

impl<P: Payload> Receipt<P> {
    /// The content hash for the supplied fields, with the payload type's
    /// kind. The signature takes no part, so signing happens after hashing.
    pub fn compute_content_hash(
        sequence: u64,
        timestamp: Timestamp,
        prev_hash: ContentHash,
        payload: &P,
    ) -> (r: Result<ContentHash, String>)
        ensures
            r is Ok <==> content_hash_spec::<P>(sequence, timestamp, P::kind_spec(), prev_hash@, payload@) is Some,
            r matches Ok(h) ==> content_hash_spec::<P>(sequence, timestamp, P::kind_spec(), prev_hash@, payload@)
                == Some(h@),
            r matches Err(m) ==> m@ == unencodable_payload_text(),
    {
        hash_fields(sequence, timestamp, P::kind(), prev_hash, payload)
    }

    /// The content hash that this receipt's fields call for: every field
    /// but the signature, the stored kind included.
    pub fn recompute_content_hash(&self) -> (r: Result<ContentHash, String>)
        ensures
            r is Ok <==> rehash::<P>(self@) is Some,
            r matches Ok(h) ==> rehash::<P>(self@) == Some(h@),
            r matches Err(m) ==> m@ == unencodable_payload_text(),
    {
        hash_fields(self.sequence, self.timestamp, self.kind.as_str(), self.prev_hash, &self.payload)
    }

    /// A copy with the same model.
    pub fn duplicate(&self) -> (r: Receipt<P>)
        ensures
            r@ == self@,
    {
        Receipt {
            sequence: self.sequence,
            timestamp: self.timestamp,
            kind: self.kind.clone(),
            prev_hash: self.prev_hash,
            payload: self.payload.duplicate(),
            signature: self.signature.duplicate(),
            content_hash: self.content_hash,
        }
    }
}

} // verus!
