//! Conflict-key projection.
//!
//! A [`ConflictKeySpec`] is *register-once* data: a small table that maps a
//! method's `route_key` ("package.Service.Method") to a rule describing which
//! few bytes of the request project to its conflict key. It is consumer-local:
//! it never serializes and never rides the wire. The producer's fields are
//! merely projection *inputs*; the authority over "what conflicts with what"
//! lives entirely on the consumer.
//!
//! Two messages with equal [`ConflictKey`] are serialized (same-key FIFO);
//! distinct keys may run concurrently (subject to the scheduler's budget).
//!
//! Safety defaults:
//!
//! * An undeclared method projects to [`ConflictKey::Serial`], a *global*
//!   barrier: it does not interleave with anything, declared or not.
//! * A domain defaults to the method's own `route_key` (method-private). To let
//!   two methods share a conflict domain the consumer must say so explicitly
//!   with [`ConflictKeySpecBuilder::method_in_domain`].
//! * Extraction failure projects to [`ConflictKey::Serial`] (missing field, an
//!   unsupported wire type, a repeated field): always *more* serialization,
//!   never less.
use crate::octets;
use crate::octets::same_octets;
use crate::protocol::ActrId;
use crate::protocol::ActrIdView;
use crate::text::{cat3, same_text};
use crate::wire;
use crate::wire::{scan_top_level_field, PayloadFieldKind, MAX_CONFLICT_KEY_BYTES};
use bytes::Bytes;
use vstd::prelude::*;
use vstd::utf8::*;

verus! {

/// Where a method's conflict key is projected from.
#[derive(Debug, Clone, Copy)]
#[non_exhaustive]
pub enum KeySource {
    /// Key = the transport-authenticated sender's [`ActrId`]. A missing caller
    /// (in-process shell lane) projects to a fixed empty value *within the
    /// domain*, i.e. all callerless messages on that method share one serial
    /// lane.
    Sender,
    /// Key = the schema-aware canonical value of the top-level protobuf field
    /// with this `tag` in the request payload. `kind` must match the field's
    /// declared protobuf scalar type; carrying it explicitly prevents distinct
    /// wire values that decode to the same logical value from escaping same-key
    /// serialization. A missing field, type mismatch, invalid scalar,
    /// unsupported wire type (groups), repeated field, or oversized value
    /// falls back to [`ConflictKey::Serial`].
    PayloadField { tag: u32, kind: PayloadFieldKind },
}

/// Per-method conflict-key rule: a source plus an optional explicit domain.
#[derive(Debug)]
struct KeyRule {
    source: KeySource,
    /// Conflict domain; keys only compare within the same domain. `None` =
    /// the method's own `route_key` (method-private domain). `Some(name)` =
    /// a shared domain across methods that name it identically.
    domain: Option<String>,
}

/// Contents of a rule: where the key comes from and the shared domain, if any.
pub struct KeyRuleView {
    pub source: KeySource,
    pub domain: Option<Seq<char>>,
}

impl View for KeyRule {
    type V = KeyRuleView;

    closed spec fn view(&self) -> KeyRuleView {
        KeyRuleView {
            source: self.source,
            domain: match self.domain {
                Some(d) => Some(d@),
                None => None,
            },
        }
    }
}

/// One registered route.
#[derive(Debug)]
struct RouteRule {
    route_key: String,
    rule: KeyRule,
}

/// The table that a list of registered routes stands for.
spec fn rule_table(rules: Seq<RouteRule>) -> Map<Seq<char>, KeyRuleView>
    decreases rules.len(),
{
    if rules.len() == 0 {
        Map::empty()
    } else {
        rule_table(rules.drop_last()).insert(rules.last().route_key@, rules.last().rule@)
    }
}

/// No route is registered twice.
spec fn distinct_routes(rules: Seq<RouteRule>) -> bool {
    forall|i: int, j: int|
        0 <= i < j < rules.len() ==> #[trigger] rules[i].route_key@
            != #[trigger] rules[j].route_key@
}

proof fn lemma_rule_table(rules: Seq<RouteRule>, route: Seq<char>)
    requires
        distinct_routes(rules),
    ensures
        rule_table(rules).dom().contains(route) <==> exists|i: int|
            0 <= i < rules.len() && #[trigger] rules[i].route_key@ == route,
        forall|i: int|
            0 <= i < rules.len() && #[trigger] rules[i].route_key@ == route ==> rule_table(
                rules,
            )[route] == rules[i].rule@,
    decreases rules.len(),
{
    if rules.len() > 0 {
        let init = rules.drop_last();
        lemma_rule_table(init, route);
        assert(forall|i: int| 0 <= i < init.len() ==> init[i] == rules[i]);
        if rule_table(init).dom().contains(route) {
            let i = choose|i: int| 0 <= i < init.len() && #[trigger] init[i].route_key@ == route;
            assert(rules[i].route_key@ == route);
        }
        assert(rules.last() == rules[rules.len() - 1]);
    }
}

/// Errors from building a [`ConflictKeySpec`].
#[derive(Debug, Clone, PartialEq, Eq)]
pub enum ConflictKeyError {
    /// A `route_key` was registered more than once, a programming error.
    DuplicateRoute(String),
}

impl ConflictKeyError {
    /// The route that this error names.
    pub open spec fn route(self) -> Seq<char> {
        match self {
            ConflictKeyError::DuplicateRoute(r) => r@,
        }
    }

    /// Printed form of the error.
    pub fn to_text(&self) -> (r: String)
        ensures
            r@ == "duplicate conflict-key registration for route_key `"@ + self.route() + "`"@,
    {
        match self {
            ConflictKeyError::DuplicateRoute(route) => cat3(
                "duplicate conflict-key registration for route_key `",
                route.as_str(),
                "`",
            ),
        }
    }
}

/// Projection result routed by the scheduler.
#[derive(Debug, Clone, PartialEq, Eq, Hash)]
pub enum ConflictKey {
    /// Implicit root key: undeclared method, extraction fallback, or gate off.
    /// Semantics = **global barrier** (mutually exclusive with *every* in-flight
    /// task), not merely "exclusive with other Serial".
    Serial,
    /// `(domain, raw bytes)` compared for exact equality: no hashing of the
    /// value into a smaller space, so no collisions.
    Scoped { domain: String, value: Bytes },
}

/// Contents of a [`ConflictKey`].
pub enum ConflictKeyView {
    Serial,
    Scoped { domain: Seq<char>, value: Seq<u8> },
}

impl View for ConflictKey {
    type V = ConflictKeyView;

    open spec fn view(&self) -> ConflictKeyView {
        match *self {
            ConflictKey::Serial => ConflictKeyView::Serial,
            ConflictKey::Scoped { domain, value } => ConflictKeyView::Scoped {
                domain: domain@,
                value: octets::content(value),
            },
        }
    }
}

impl ConflictKey {
    /// Whether this is the global barrier.
    pub fn is_serial(&self) -> (r: bool)
        ensures
            r == (self@ is Serial),
    {
        matches!(self, ConflictKey::Serial)
    }

    /// Whether two keys are equal, and so must not run at the same time.
    pub fn same_key(&self, other: &ConflictKey) -> (r: bool)
        ensures
            r == (self@ == other@),
    {
        match self {
            ConflictKey::Serial => other.is_serial(),
            ConflictKey::Scoped { domain, value } => match other {
                ConflictKey::Serial => false,
                ConflictKey::Scoped {
                    domain: other_domain,
                    value: other_value,
                } => same_text(domain.as_str(), other_domain.as_str()) && same_octets(
                    value,
                    other_value,
                ),
            },
        }
    }

    /// A copy with the same contents.
    pub fn duplicate(&self) -> (r: ConflictKey)
        ensures
            r@ == self@,
    {
        match self {
            ConflictKey::Serial => ConflictKey::Serial,
            ConflictKey::Scoped { domain, value } => ConflictKey::Scoped {
                domain: domain.clone(),
                value: value.clone(),
            },
        }
    }
}

/// The key that one inbound request projects to: the rule of its route, if
/// there is one, applied to the caller (absent on the in-process lane) and the
/// payload.
pub open spec fn projected_key(
    rules: Map<Seq<char>, KeyRuleView>,
    route_key: Seq<char>,
    caller: Option<ActrIdView>,
    payload: Seq<u8>,
) -> ConflictKeyView {
    if !rules.dom().contains(route_key) {
        ConflictKeyView::Serial
    } else {
        let rule = rules[route_key];
        let domain = match rule.domain {
            Some(d) => d,
            None => route_key,
        };
        match rule.source {
            KeySource::Sender => ConflictKeyView::Scoped {
                domain,
                value: match caller {
                    Some(id) => encode_utf8(id.repr()),
                    None => Seq::empty(),
                },
            },
            KeySource::PayloadField { tag, kind } => match wire::scan_message(payload, tag as nat, kind) {
                Ok(Some(value)) => ConflictKeyView::Scoped { domain, value },
                _ => ConflictKeyView::Serial,
            },
        }
    }
}

/// Register-once conflict-key projection table.
///
/// Turning on dispatch concurrency and declaring a key for a method asserts
/// that **distinct-key invocations of that method may run concurrently**: any
/// state that a handler shares across a suspension point must tolerate a
/// sibling distinct-key dispatch observing it mid-flight. The framework cannot
/// verify this; it is the consumer's contract. Backends that cannot multiplex
/// stay serial regardless of the declared keys.
#[derive(Debug)]
pub struct ConflictKeySpec {
    rules: Vec<RouteRule>,
}

impl View for ConflictKeySpec {
    type V = Map<Seq<char>, KeyRuleView>;

    closed spec fn view(&self) -> Map<Seq<char>, KeyRuleView> {
        rule_table(self.rules@)
    }
}

impl Default for ConflictKeySpec {
    fn default() -> (r: ConflictKeySpec)
        ensures
            r@ == Map::<Seq<char>, KeyRuleView>::empty(),
    {
        ConflictKeySpec { rules: Vec::new() }
    }
}

/// Two lists register the same routes with the same rules.
spec fn same_rules(a: Seq<RouteRule>, b: Seq<RouteRule>) -> bool {
    &&& a.len() == b.len()
    &&& forall|i: int|
        #![trigger a[i]]
        #![trigger b[i]]
        0 <= i < a.len() ==> a[i].route_key@ == b[i].route_key@ && a[i].rule@ == b[i].rule@
}

proof fn lemma_same_rules(a: Seq<RouteRule>, b: Seq<RouteRule>)
    requires
        same_rules(a, b),
    ensures
        rule_table(a) == rule_table(b),
        distinct_routes(a) ==> distinct_routes(b),
    decreases a.len(),
{
    if a.len() > 0 {
        assert(a.last() == a[a.len() - 1]);
        assert(same_rules(a.drop_last(), b.drop_last()));
        lemma_same_rules(a.drop_last(), b.drop_last());
    }
    if distinct_routes(a) {
        assert forall|i: int, j: int| 0 <= i < j < b.len() implies #[trigger] b[i].route_key@
            != #[trigger] b[j].route_key@ by {
            assert(a[i].route_key@ != a[j].route_key@);
        }
    }
}

impl Clone for ConflictKeySpec {
    fn clone(&self) -> (r: ConflictKeySpec)
        ensures
            r@ == self@,
    {
        proof {
            use_type_invariant(self);
        }
        let mut rules: Vec<RouteRule> = Vec::new();
        let mut i: usize = 0;
        while i < self.rules.len()
            invariant
                i <= self.rules@.len(),
                same_rules(self.rules@.take(i as int), rules@),
            decreases self.rules@.len() - i,
        {
            let entry: &RouteRule = &self.rules[i];
            let domain: Option<String> = match &entry.rule.domain {
                Some(d) => Some(d.clone()),
                None => None,
            };
            rules.push(
                RouteRule {
                    route_key: entry.route_key.clone(),
                    rule: KeyRule { source: entry.rule.source, domain },
                },
            );
            i = i + 1;
        }
        proof {
            assert(self.rules@.take(i as int) =~= self.rules@);
            lemma_same_rules(self.rules@, rules@);
        }
        ConflictKeySpec { rules }
    }
}

/// Contents of an optional identity.
pub open spec fn caller_view(caller_id: Option<&ActrId>) -> Option<ActrIdView> {
    match caller_id {
        Some(id) => Some(id@),
        None => None,
    }
}

impl ConflictKeySpec {
    #[verifier::type_invariant]
    spec fn well_formed(self) -> bool {
        distinct_routes(self.rules@)
    }

    /// Start building a spec.
    pub fn builder() -> (r: ConflictKeySpecBuilder)
        ensures
            r.rules() == Map::<Seq<char>, KeyRuleView>::empty(),
            r.duplicate() is None,
    {
        ConflictKeySpecBuilder { rules: Vec::new(), error: None }
    }

    /// `true` when no route declares a conflict key. A keyless spec means every
    /// dispatch projects to the global [`ConflictKey::Serial`] barrier, so
    /// concurrency can never appear: a keyless actor needs no scheduler.
    pub fn is_empty(&self) -> (r: bool)
        ensures
            r == (self@ == Map::<Seq<char>, KeyRuleView>::empty()),
    {
        proof {
            use_type_invariant(self);
            if self.rules@.len() > 0 {
                lemma_rule_table(self.rules@, self.rules@[0].route_key@);
                assert(self@.dom().contains(self.rules@[0].route_key@));
            }
        }
        self.rules.len() == 0
    }

    /// Project one inbound RPC to its [`ConflictKey`].
    ///
    /// `payload` is the request payload bytes. An undeclared `route_key`, or
    /// any extraction failure for [`KeySource::PayloadField`], falls back to
    /// [`ConflictKey::Serial`].
    pub fn extract(&self, route_key: &str, caller_id: Option<&ActrId>, payload: &[u8]) -> (r:
        ConflictKey)
        ensures
            r@ == projected_key(self@, route_key@, caller_view(caller_id), payload@),
    {
        proof {
            use_type_invariant(self);
        }
        match find_route(&self.rules, route_key) {
            None => ConflictKey::Serial,
            Some(i) => {
                let rule: &KeyRule = &self.rules[i].rule;
                let domain: String = match &rule.domain {
                    Some(d) => d.clone(),
                    None => route_key.to_owned(),
                };
                match rule.source {
                    KeySource::Sender => {
                        let value: Bytes = match caller_id {
                            Some(id) => {
                                let repr: String = id.to_string_repr();
                                Bytes::copy_from_slice(repr.as_str().as_bytes())
                            },
                            None => Bytes::new(),
                        };
                        ConflictKey::Scoped { domain, value }
                    },
                    KeySource::PayloadField { tag, kind } => {
                        match scan_top_level_field(payload, tag, kind) {
                            Ok(Some(value)) => ConflictKey::Scoped { domain, value },
                            _ => ConflictKey::Serial,
                        }
                    },
                }
            },
        }
    }
}

impl ConflictKeySpec {
    /// The declared payload field behind a key that extraction gave for a route,
    /// where the field could not be projected and dispatch falls back to serial.
    pub fn extract_fallback(&self, route_key: &str, key: &ConflictKey) -> (r: Option<
        (u32, PayloadFieldKind),
    >)
        ensures
            r == reported_fallback(self@, route_key@, key@),
    {
        proof {
            use_type_invariant(self);
        }
        if !key.is_serial() {
            return None;
        }
        match find_route(&self.rules, route_key) {
            None => None,
            Some(i) => match self.rules[i].rule.source {
                KeySource::Sender => None,
                KeySource::PayloadField { tag, kind } => Some((tag, kind)),
            },
        }
    }
}

/// What a key tells of a failed projection: the payload field of the route's rule,
/// where the key is the barrier.
pub open spec fn reported_fallback(
    rules: Map<Seq<char>, KeyRuleView>,
    route_key: Seq<char>,
    key: ConflictKeyView,
) -> Option<(u32, PayloadFieldKind)> {
    if rules.dom().contains(route_key) && key == ConflictKeyView::Serial {
        match rules[route_key].source {
            KeySource::Sender => None,
            KeySource::PayloadField { tag, kind } => Some((tag, kind)),
        }
    } else {
        None
    }
}

/// How far apart fallback warnings are, in milliseconds.
pub const FALLBACK_WARNING_MILLIS: u64 = 1000;

/// Whether a fallback warning is due at `now_ms`, where the last one was at
/// `last_ms`.
pub open spec fn warning_due(last_ms: u64, now_ms: u64) -> bool {
    now_ms - last_ms >= FALLBACK_WARNING_MILLIS
}

/// Rate-limited (about once a second) warning for an extraction fallback, so that
/// a hot method projecting to Serial cannot flood the log. Says whether to warn
/// now, and remembers that. Times are milliseconds since the first call.
pub fn warn_extract_fallback(last_warn_ms: &mut u64, now_ms: u64) -> (r: bool)
    ensures
        r == warning_due(*old(last_warn_ms), now_ms),
        *final(last_warn_ms) == (if r {
            now_ms
        } else {
            *old(last_warn_ms)
        }),
{
    if now_ms.saturating_sub(*last_warn_ms) >= FALLBACK_WARNING_MILLIS {
        *last_warn_ms = now_ms;
        true
    } else {
        false
    }
}

/// Position of a route in the list, if it is registered.
fn find_route(rules: &Vec<RouteRule>, route_key: &str) -> (r: Option<usize>)
    requires
        distinct_routes(rules@),
    ensures
        r is Some <==> rule_table(rules@).dom().contains(route_key@),
        r matches Some(i) ==> i < rules@.len() && rule_table(rules@)[route_key@]
            == rules@[i as int].rule@,
{
    proof {
        lemma_rule_table(rules@, route_key@);
    }
    let mut i: usize = 0;
    while i < rules.len()
        invariant
            i <= rules@.len(),
            forall|j: int| 0 <= j < i ==> #[trigger] rules@[j].route_key@ != route_key@,
            rule_table(rules@).dom().contains(route_key@) <==> exists|j: int|
                0 <= j < rules@.len() && #[trigger] rules@[j].route_key@ == route_key@,
            forall|j: int|
                0 <= j < rules@.len() && #[trigger] rules@[j].route_key@ == route_key@
                    ==> rule_table(rules@)[route_key@] == rules@[j].rule@,
        decreases rules@.len() - i,
    {
        if same_text(rules[i].route_key.as_str(), route_key) {
            return Some(i);
        }
        i = i + 1;
    }
    None
}

/// Builder for [`ConflictKeySpec`]. Duplicate `route_key` registration is a
/// programming error captured here and surfaced by [`Self::build`].
#[derive(Debug)]
pub struct ConflictKeySpecBuilder {
    rules: Vec<RouteRule>,
    error: Option<ConflictKeyError>,
}

impl ConflictKeySpecBuilder {
    /// The rules registered so far.
    pub closed spec fn rules(self) -> Map<Seq<char>, KeyRuleView> {
        rule_table(self.rules@)
    }

    /// The first route that was registered twice, if any.
    pub closed spec fn duplicate(self) -> Option<Seq<char>> {
        match self.error {
            Some(e) => Some(e.route()),
            None => None,
        }
    }

    #[verifier::type_invariant]
    spec fn well_formed(self) -> bool {
        distinct_routes(self.rules@)
    }

    /// What registering a rule does to a builder: the first registration of a
    /// route stands, and the first route registered again is remembered.
    pub open spec fn registered(
        self,
        route_key: Seq<char>,
        rule: KeyRuleView,
        after: ConflictKeySpecBuilder,
    ) -> bool {
        if self.rules().dom().contains(route_key) {
            &&& after.rules() == self.rules()
            &&& after.duplicate() == (match self.duplicate() {
                Some(first) => Some(first),
                None => Some(route_key),
            })
        } else {
            &&& after.rules() == self.rules().insert(route_key, rule)
            &&& after.duplicate() == self.duplicate()
        }
    }

    /// Declare a method keyed within its own (method-private) domain.
    pub fn method(self, route_key: &str, source: KeySource) -> (r: Self)
        ensures
            self.registered(route_key@, (KeyRuleView { source, domain: None }), r),
    {
        self.insert(route_key.to_owned(), source, None)
    }

    /// Declare a method keyed within an explicit, possibly shared, domain.
    ///
    /// Methods naming the same `domain` share one conflict space, so equal
    /// projected values across those methods serialize against each other.
    /// Payload-backed methods in one shared domain should use compatible field
    /// kinds and logical meanings; the consumer owns that cross-method contract.
    pub fn method_in_domain(self, route_key: &str, domain: &str, source: KeySource) -> (r: Self)
        ensures
            self.registered(route_key@, (KeyRuleView { source, domain: Some(domain@) }), r),
    {
        self.insert(route_key.to_owned(), source, Some(domain.to_owned()))
    }

    fn insert(self, route_key: String, source: KeySource, domain: Option<String>) -> (r: Self)
        ensures
            self.registered(
                route_key@,
                (KeyRuleView {
                    source,
                    domain: (match domain {
                        Some(d) => Some(d@),
                        None => None,
                    }),
                }),
                r,
            ),
    {
        proof {
            use_type_invariant(&self);
        }
        let found: Option<usize> = find_route(&self.rules, route_key.as_str());
        if found.is_some() {
            let error: Option<ConflictKeyError> = match self.error {
                Some(e) => Some(e),
                None => Some(ConflictKeyError::DuplicateRoute(route_key)),
            };
            return ConflictKeySpecBuilder { rules: self.rules, error };
        }
        let ghost before = self.rules@;
        let ghost route = route_key@;
        let mut rules: Vec<RouteRule> = self.rules;
        rules.push(RouteRule { route_key, rule: KeyRule { source, domain } });
        proof {
            lemma_rule_table(before, route);
            assert(rules@.drop_last() =~= before);
            assert(rules@.last().route_key@ == route);
            assert forall|i: int, j: int| 0 <= i < j < rules@.len() implies #[trigger] rules@[i].route_key@
                != #[trigger] rules@[j].route_key@ by {
                if j == rules@.len() - 1 {
                    assert(before[i].route_key@ != route);
                }
            }
        }
        ConflictKeySpecBuilder { rules, error: self.error }
    }

    /// Finalize the spec, or return the first registration error observed.
    pub fn build(self) -> (r: Result<ConflictKeySpec, ConflictKeyError>)
        ensures
            match self.duplicate() {
                Some(route) => r matches Err(e) && e.route() == route,
                None => r matches Ok(s) && s@ == self.rules(),
            },
    {
        proof {
            use_type_invariant(&self);
        }
        match self.error {
            Some(err) => Err(err),
            None => Ok(ConflictKeySpec { rules: self.rules }),
        }
    }
}

impl Default for ConflictKeySpecBuilder {
    fn default() -> (r: ConflictKeySpecBuilder)
        ensures
            r.rules() == Map::<Seq<char>, KeyRuleView>::empty(),
            r.duplicate() is None,
    {
        ConflictKeySpec::builder()
    }
}

// ── laws ─────────────────────────────────────────────────────────────────────

/// A request to an undeclared route projects to the global barrier.
pub proof fn undeclared_route_is_serial(
    rules: Map<Seq<char>, KeyRuleView>,
    route_key: Seq<char>,
    caller: Option<ActrIdView>,
    payload: Seq<u8>,
)
    requires
        !rules.dom().contains(route_key),
    ensures
        projected_key(rules, route_key, caller, payload) == ConflictKeyView::Serial,
{
}

/// With no declared keys every request projects to the global barrier.
pub proof fn keyless_table_is_serial(
    route_key: Seq<char>,
    caller: Option<ActrIdView>,
    payload: Seq<u8>,
)
    ensures
        projected_key(Map::empty(), route_key, caller, payload) == ConflictKeyView::Serial,
{
}

/// Method-private domains never collide: two distinct routes without a shared
/// domain can only project to equal keys through the global barrier.
pub proof fn private_domains_do_not_collide(
    rules: Map<Seq<char>, KeyRuleView>,
    first: Seq<char>,
    second: Seq<char>,
    first_caller: Option<ActrIdView>,
    second_caller: Option<ActrIdView>,
    first_payload: Seq<u8>,
    second_payload: Seq<u8>,
)
    requires
        first != second,
        rules.dom().contains(first) ==> rules[first].domain is None,
        rules.dom().contains(second) ==> rules[second].domain is None,
        projected_key(rules, first, first_caller, first_payload) == projected_key(
            rules,
            second,
            second_caller,
            second_payload,
        ),
    ensures
        projected_key(rules, first, first_caller, first_payload) == ConflictKeyView::Serial,
{
}

/// Two routes with the same source in the same shared domain project every
/// request to the same key.
pub proof fn shared_domain_is_one_conflict_space(
    rules: Map<Seq<char>, KeyRuleView>,
    first: Seq<char>,
    second: Seq<char>,
    caller: Option<ActrIdView>,
    payload: Seq<u8>,
)
    requires
        rules.dom().contains(first),
        rules.dom().contains(second),
        rules[first] == rules[second],
        rules[first].domain is Some,
    ensures
        projected_key(rules, first, caller, payload) == projected_key(
            rules,
            second,
            caller,
            payload,
        ),
{
}

/// A sender-keyed route always projects to a scoped key, and all requests
/// without a caller share one lane.
pub proof fn sender_source_is_always_scoped(
    rules: Map<Seq<char>, KeyRuleView>,
    route_key: Seq<char>,
    caller: Option<ActrIdView>,
    payload: Seq<u8>,
    other_payload: Seq<u8>,
)
    requires
        rules.dom().contains(route_key),
        rules[route_key].source is Sender,
    ensures
        projected_key(rules, route_key, caller, payload) is Scoped,
        projected_key(rules, route_key, None, payload) == projected_key(
            rules,
            route_key,
            None,
            other_payload,
        ),
{
}

/// A key projected from a payload never retains more than the bound.
pub proof fn payload_keys_are_bounded(
    rules: Map<Seq<char>, KeyRuleView>,
    route_key: Seq<char>,
    caller: Option<ActrIdView>,
    payload: Seq<u8>,
)
    requires
        rules.dom().contains(route_key) ==> rules[route_key].source is PayloadField,
    ensures
        projected_key(rules, route_key, caller, payload) matches ConflictKeyView::Scoped {
            domain,
            value,
        } ==> value.len() <= MAX_CONFLICT_KEY_BYTES,
{
    if rules.dom().contains(route_key) {
        if let KeySource::PayloadField { tag, kind } = rules[route_key].source {
            wire::projected_key_is_bounded(payload, tag as nat, kind);
        }
    }
}

/// A fallback is reported exactly where the declared field of the payload has no
/// canonical value; undeclared routes and sender keys never report one.
pub proof fn failed_projections_are_reported(
    rules: Map<Seq<char>, KeyRuleView>,
    route_key: Seq<char>,
    caller: Option<ActrIdView>,
    payload: Seq<u8>,
)
    ensures
        reported_fallback(rules, route_key, projected_key(rules, route_key, caller, payload))
            == (if !rules.dom().contains(route_key) {
            None
        } else {
            match rules[route_key].source {
                KeySource::PayloadField { tag, kind } => match wire::scan_message(
                    payload,
                    tag as nat,
                    kind,
                ) {
                    Ok(Some(_)) => None,
                    _ => Some((tag, kind)),
                },
                KeySource::Sender => None,
            }
        }),
{
}

/// After a warning at `at_ms` none is due for a second, and then one is.
pub proof fn warnings_are_spaced(at_ms: u64, later_ms: u64)
    ensures
        warning_due(at_ms, later_ms) <==> later_ms >= at_ms + FALLBACK_WARNING_MILLIS,
{
}

/// On a route that declares a payload field, two requests conflict exactly when
/// that field has the same logical value in both, whatever else the payloads hold
/// and whoever calls: equal values give equal keys, different values give
/// different keys, and a request without such a value is a barrier.
pub proof fn keys_follow_the_declared_value(
    rules: Map<Seq<char>, KeyRuleView>,
    route_key: Seq<char>,
    tag: u32,
    kind: PayloadFieldKind,
    caller: Option<ActrIdView>,
    payload: Seq<u8>,
    other_caller: Option<ActrIdView>,
    other_payload: Seq<u8>,
)
    requires
        rules.dom().contains(route_key),
        rules[route_key].source == (KeySource::PayloadField { tag, kind }),
    ensures
        projected_key(rules, route_key, caller, payload) == projected_key(
            rules,
            route_key,
            other_caller,
            other_payload,
        ) <==> wire::declared_value(payload, tag as nat, kind) == wire::declared_value(
            other_payload,
            tag as nat,
            kind,
        ),
        projected_key(rules, route_key, caller, payload) == ConflictKeyView::Serial
            <==> wire::declared_value(payload, tag as nat, kind) is None,
{
    wire::scan_finds_the_declared_value(payload, tag as nat, kind);
    wire::scan_finds_the_declared_value(other_payload, tag as nat, kind);
    if wire::declared_value(payload, tag as nat, kind) is Some && wire::declared_value(
        other_payload,
        tag as nat,
        kind,
    ) is Some {
        wire::projections_tell_values_apart(payload, other_payload, tag as nat, kind);
    }
}

/// The key of a declared integer, enum or truth value is the value itself: a payload
/// whose only occurrence of the field encodes some value of the declared type projects
/// to that value's minimal varint in the route's domain, and any other varint is a
/// barrier.
pub proof fn declared_scalars_key_by_value(
    rules: Map<Seq<char>, KeyRuleView>,
    route_key: Seq<char>,
    tag: u32,
    kind: PayloadFieldKind,
    caller: Option<ActrIdView>,
    payload: Seq<u8>,
    v: nat,
)
    requires
        rules.dom().contains(route_key),
        rules[route_key].source == (KeySource::PayloadField { tag, kind }),
        wire::fields_of(payload).1,
        wire::occurrences(wire::fields_of(payload).0, tag as nat) == seq![
            wire::FieldValue::Varint(v),
        ],
    ensures
        wire::encodes_scalar(v as int, kind) ==> projected_key(rules, route_key, caller, payload)
            == (ConflictKeyView::Scoped {
            domain: (match rules[route_key].domain {
                Some(d) => d,
                None => route_key,
            }),
            value: wire::minimal_varint(v),
        }),
        !wire::encodes_scalar(v as int, kind) ==> projected_key(rules, route_key, caller, payload)
            == ConflictKeyView::Serial,
{
    wire::sole_varints_project_by_type(payload, tag as nat, kind, v);
}

/// A message that consists of the declared field alone, written as protobuf writes it,
/// projects to its value: every value of an enum or a signed or unsigned 32-bit type.
pub proof fn written_fields_project(
    rules: Map<Seq<char>, KeyRuleView>,
    route_key: Seq<char>,
    tag: u32,
    kind: PayloadFieldKind,
    caller: Option<ActrIdView>,
    v: u64,
)
    requires
        rules.dom().contains(route_key),
        rules[route_key].source == (KeySource::PayloadField { tag, kind }),
        rules[route_key].domain is None,
        1 <= tag <= 0x1fff_ffff,
        wire::encodes_scalar(v as int, kind),
    ensures
        projected_key(
            rules,
            route_key,
            caller,
            wire::field_key(tag as nat, 0) + wire::minimal_varint(v as nat),
        ) == (ConflictKeyView::Scoped {
            domain: route_key,
            value: wire::minimal_varint(v as nat),
        }),
{
    let empty = Seq::<u8>::empty();
    let s = wire::field_key(tag as nat, 0) + wire::minimal_varint(v as nat);
    let (eight, four) = (seq![0u8, 0, 0, 0, 0, 0, 0, 0], seq![0u8, 0, 0, 0]);
    wire::fields_are_read_as_written(tag as nat, v, eight, empty, four, empty);
    assert(s =~= wire::field_key(tag as nat, 0) + wire::minimal_varint(v as nat) + empty);
    wire::messages_are_read_field_by_field(s);
    wire::messages_are_read_field_by_field(empty);
    let f = wire::Field {
        number: tag as nat,
        value: wire::FieldValue::Varint(v as nat),
    };
    assert(wire::fields_of(s).0 =~= seq![f]);
    wire::occurrences_are_those_of_the_number(Seq::empty(), f, tag as nat);
    assert(Seq::<wire::Field>::empty().push(f) =~= seq![f]);
    assert(wire::occurrences(wire::fields_of(s).0, tag as nat) =~= seq![
        wire::FieldValue::Varint(v as nat),
    ]);
    declared_scalars_key_by_value(rules, route_key, tag, kind, caller, s, v as nat);
}

/// A payload whose field is absent, repeated or in a malformed message is a barrier.
pub proof fn ambiguous_fields_are_barriers(
    rules: Map<Seq<char>, KeyRuleView>,
    route_key: Seq<char>,
    tag: u32,
    kind: PayloadFieldKind,
    caller: Option<ActrIdView>,
    payload: Seq<u8>,
)
    requires
        rules.dom().contains(route_key),
        rules[route_key].source == (KeySource::PayloadField { tag, kind }),
        !wire::fields_of(payload).1 || wire::occurrences(
            wire::fields_of(payload).0,
            tag as nat,
        ).len() != 1,
    ensures
        projected_key(rules, route_key, caller, payload) == ConflictKeyView::Serial,
{
    wire::only_sole_occurrences_project(payload, tag as nat, kind);
}

/// A sender-keyed route tells senders apart: requests of two callers conflict only where
/// serial number, realm and type agree, requests of one caller always do, whatever they
/// carry, and nobody shares the lane of requests without a caller.
pub proof fn senders_are_told_apart(
    rules: Map<Seq<char>, KeyRuleView>,
    route_key: Seq<char>,
    a: ActrIdView,
    b: ActrIdView,
    payload: Seq<u8>,
    other_payload: Seq<u8>,
)
    requires
        rules.dom().contains(route_key),
        rules[route_key].source is Sender,
    ensures
        projected_key(rules, route_key, Some(a), payload) == projected_key(
            rules,
            route_key,
            Some(b),
            other_payload,
        ) ==> a.serial_number == b.serial_number && a.realm_id == b.realm_id
            && a.actr_type.repr() == b.actr_type.repr(),
        projected_key(rules, route_key, Some(a), payload) == projected_key(
            rules,
            route_key,
            Some(a),
            other_payload,
        ),
        projected_key(rules, route_key, Some(a), payload) != projected_key(
            rules,
            route_key,
            None,
            other_payload,
        ),
{
    encode_utf8_decode_utf8(a.repr());
    encode_utf8_decode_utf8(b.repr());
    if projected_key(rules, route_key, Some(a), payload) == projected_key(
        rules,
        route_key,
        Some(b),
        other_payload,
    ) {
        assert(encode_utf8(a.repr()) == encode_utf8(b.repr()));
        crate::protocol::identity_texts_tell_actors_apart(a, b);
    }
    crate::protocol::identity_texts_start_with_the_serial(a);
    let empty = Seq::<char>::empty();
    encode_utf8_decode_utf8(empty);
    assert(encode_utf8(empty) =~= Seq::<u8>::empty());
    if encode_utf8(a.repr()) == Seq::<u8>::empty() {
        assert(a.repr() =~= empty);
    }
}

/// A scoped key lies in the domain that its route declares: the shared one where it names
/// one, else its own.
pub proof fn keys_lie_in_the_declared_domain(
    rules: Map<Seq<char>, KeyRuleView>,
    route_key: Seq<char>,
    caller: Option<ActrIdView>,
    payload: Seq<u8>,
)
    ensures
        projected_key(rules, route_key, caller, payload) matches ConflictKeyView::Scoped {
            domain,
            value,
        } ==> rules.dom().contains(route_key) && match rules[route_key].domain {
            Some(d) => domain == d,
            None => domain == route_key,
        },
{
}

/// The first registration of a route stands: registering changes no other route, a route
/// that is new gets the rule it is given, one that is not keeps its own, and the first
/// route that was registered again is remembered for good.
pub proof fn first_registration_stands(
    builder: ConflictKeySpecBuilder,
    route: Seq<char>,
    rule: KeyRuleView,
    after: ConflictKeySpecBuilder,
    other: Seq<char>,
)
    requires
        builder.registered(route, rule, after),
    ensures
        after.rules().dom().contains(route),
        builder.rules().dom().contains(route) ==> after.rules()[route] == builder.rules()[route]
            && after.duplicate() is Some,
        !builder.rules().dom().contains(route) ==> after.rules()[route] == rule
            && after.duplicate() == builder.duplicate(),
        other != route ==> (after.rules().dom().contains(other)
            <==> builder.rules().dom().contains(other)),
        other != route && builder.rules().dom().contains(other) ==> after.rules()[other]
            == builder.rules()[other],
        builder.duplicate() is Some ==> after.duplicate() == builder.duplicate(),
        builder.duplicate() is None && builder.rules().dom().contains(route) ==> after.duplicate()
            == Some(route),
{
}

/// Warnings are a second apart at least, and one that comes a second after the last is
/// never held back.
pub proof fn warnings_come_once_a_second(at_ms: u64, later_ms: u64)
    ensures
        warning_due(at_ms, later_ms) <==> later_ms - at_ms >= 1000,
{
}

} // verus!
