//! Fenced lease identity for process lifecycle mutations.
//!
//! The lifecycle policy is backend-agnostic. The lease authority is outside; this
//! adapter derives the key under which every suspend/resume transition is serialized
//! across controllers, and holds what a grant of it says.

use crate::text::{append_text, chars_of, is_ascii_alphanumeric, law_split, split};
use vstd::prelude::*;

verus! {

pub const LOCK_PREFIX: &'static str = "process-lifecycle";

pub const MAX_SEGMENT_BYTES: usize = 96;

/// A character that may stand in a segment of a lock key.
pub open spec fn is_segment_char(c: char) -> bool {
    is_ascii_alphanumeric(c) || c == '-' || c == '_' || c == '.' || c == ':'
}

/// A segment of a lock key.
pub open spec fn segment(value: Seq<char>) -> bool {
    &&& 0 < value.len() <= MAX_SEGMENT_BYTES
    &&& forall|i: int| 0 <= i < value.len() ==> is_segment_char(#[trigger] value[i])
}

#[derive(Clone, Copy, Debug, PartialEq, Eq)]
pub enum LifecycleLeaseScopeError {
    InvalidSegment { field: &'static str },
    LockKeyTooLong,
}

/// What a [`LifecycleLeaseScopeError`] says.
pub enum ScopeFault {
    InvalidSegment(Seq<char>),
    LockKeyTooLong,
}

impl View for LifecycleLeaseScopeError {
    type V = ScopeFault;

    open spec fn view(&self) -> ScopeFault {
        match self {
            LifecycleLeaseScopeError::InvalidSegment { field } => ScopeFault::InvalidSegment(
                field@,
            ),
            LifecycleLeaseScopeError::LockKeyTooLong => ScopeFault::LockKeyTooLong,
        }
    }
}

impl LifecycleLeaseScopeError {
    pub open spec fn text(self) -> Seq<char> {
        match self {
            LifecycleLeaseScopeError::InvalidSegment { field } =>
                "invalid process lifecycle lease "@ + field@ + " segment"@,
            LifecycleLeaseScopeError::LockKeyTooLong => "process lifecycle lease key is too long"@,
        }
    }

    /// The message that reports the error.
    pub fn message(&self) -> (text: String)
        ensures
            text@ == self.text(),
    {
        match self {
            LifecycleLeaseScopeError::InvalidSegment { field } => {
                let text = append_text("invalid process lifecycle lease ".to_owned(), field);
                append_text(text, " segment")
            },
            LifecycleLeaseScopeError::LockKeyTooLong =>
                "process lifecycle lease key is too long".to_owned(),
        }
    }
}

fn segment_char(c: char) -> (b: bool)
    ensures
        b == is_segment_char(c),
{
    ('A' <= c && c <= 'Z') || ('a' <= c && c <= 'z') || ('0' <= c && c <= '9') || c == '-' || c
        == '_' || c == '.' || c == ':'
}

fn validate_segment(field: &'static str, value: &str) -> (outcome: Result<
    (),
    LifecycleLeaseScopeError,
>)
    ensures
        outcome == (if segment(value@) {
            Ok::<(), LifecycleLeaseScopeError>(())
        } else {
            Err(LifecycleLeaseScopeError::InvalidSegment { field })
        }),
{
    let chars = chars_of(value);
    if chars.len() == 0 || chars.len() > MAX_SEGMENT_BYTES {
        return Err(LifecycleLeaseScopeError::InvalidSegment { field });
    }
    let mut i: usize = 0;
    while i < chars.len()
        invariant
            chars@ == value@,
            i <= chars@.len(),
            forall|j: int| 0 <= j < i ==> is_segment_char(#[trigger] value@[j]),
        decreases chars@.len() - i,
    {
        if !segment_char(chars[i]) {
            return Err(LifecycleLeaseScopeError::InvalidSegment { field });
        }
        i = i + 1;
    }
    Ok(())
}

/// Stable identity used to derive the distributed lifecycle lock key.
#[derive(Debug, PartialEq, Eq)]
pub struct LifecycleLeaseScope {
    product: String,
    cluster: String,
    node: String,
    workload: String,
}

/// What is known of a scope: its four segments.
#[verifier::ext_equal]
pub struct ScopeSegments {
    pub product: Seq<char>,
    pub cluster: Seq<char>,
    pub node: Seq<char>,
    pub workload: Seq<char>,
}

impl View for LifecycleLeaseScope {
    type V = ScopeSegments;

    closed spec fn view(&self) -> ScopeSegments {
        ScopeSegments {
            product: self.product@,
            cluster: self.cluster@,
            node: self.node@,
            workload: self.workload@,
        }
    }
}

impl Clone for LifecycleLeaseScope {
    fn clone(&self) -> (copy: Self)
        ensures
            copy@ == self@,
    {
        proof {
            use_type_invariant(self);
        }
        LifecycleLeaseScope {
            product: self.product.clone(),
            cluster: self.cluster.clone(),
            node: self.node.clone(),
            workload: self.workload.clone(),
        }
    }
}

impl ScopeSegments {
    pub open spec fn valid(self) -> bool {
        segment(self.product) && segment(self.cluster) && segment(self.node) && segment(
            self.workload,
        )
    }

    /// The first segment that is not valid.
    pub open spec fn fault(self) -> Option<ScopeFault> {
        if !segment(self.product) {
            Some(ScopeFault::InvalidSegment("product"@))
        } else if !segment(self.cluster) {
            Some(ScopeFault::InvalidSegment("cluster"@))
        } else if !segment(self.node) {
            Some(ScopeFault::InvalidSegment("node"@))
        } else if !segment(self.workload) {
            Some(ScopeFault::InvalidSegment("workload"@))
        } else {
            None
        }
    }

    /// The text of the lock key.
    pub open spec fn key(self) -> Seq<char> {
        LOCK_PREFIX@ + "/"@ + self.product + "/"@ + self.cluster + "/"@ + self.node + "/"@
            + self.workload
    }
}

impl LifecycleLeaseScope {
    #[verifier::type_invariant]
    spec fn has_valid_segments(self) -> bool {
        self@.valid()
    }

    pub fn new(product: &str, cluster: &str, node: &str, workload: &str) -> (outcome: Result<
        Self,
        LifecycleLeaseScopeError,
    >)
        ensures
            ({
                let segments = ScopeSegments {
                    product: product@,
                    cluster: cluster@,
                    node: node@,
                    workload: workload@,
                };
                match outcome {
                    Ok(scope) => segments.fault() is None && scope@ == segments,
                    Err(error) => segments.fault() == Some(error@),
                }
            }),
    {
        if let Err(error) = validate_segment("product", product) {
            return Err(error);
        }
        if let Err(error) = validate_segment("cluster", cluster) {
            return Err(error);
        }
        if let Err(error) = validate_segment("node", node) {
            return Err(error);
        }
        if let Err(error) = validate_segment("workload", workload) {
            return Err(error);
        }
        Ok(
            LifecycleLeaseScope {
                product: product.to_owned(),
                cluster: cluster.to_owned(),
                node: node.to_owned(),
                workload: workload.to_owned(),
            },
        )
    }

    /// The text of the lock key. Where the lock authority refuses it, it is too long.
    pub fn lock_key(&self) -> (key: String)
        ensures
            self@.valid(),
            key@ == self@.key(),
    {
        proof {
            use_type_invariant(self);
        }
        let key = append_text(LOCK_PREFIX.to_owned(), "/");
        let key = append_text(key, self.product.as_str());
        let key = append_text(key, "/");
        let key = append_text(key, self.cluster.as_str());
        let key = append_text(key, "/");
        let key = append_text(key, self.node.as_str());
        let key = append_text(key, "/");
        append_text(key, self.workload.as_str())
    }
}

/// Held fenced authority for one lifecycle mutation.
///
/// Persist `fencing_token()` with the lifecycle state/checkpoint metadata before
/// executing the requested process effect. A stale controller must never be
/// allowed to overwrite a record whose fencing token is newer.
#[derive(Debug, PartialEq, Eq)]
pub struct FencedLifecycleGrant {
    pub token: u64,
    pub owner: String,
    pub expires_ms: Option<u64>,
}

impl FencedLifecycleGrant {
    #[must_use]
    pub fn fencing_token(&self) -> (token: u64)
        ensures
            token == self.token,
    {
        self.token
    }

    #[must_use]
    pub fn holder(&self) -> (holder: &str)
        ensures
            holder@ == self.owner@,
    {
        self.owner.as_str()
    }

    #[must_use]
    pub fn lease_expires_ms(&self) -> (expires_ms: Option<u64>)
        ensures
            expires_ms == self.expires_ms,
    {
        self.expires_ms
    }
}

/// Two texts that agree up to and with their first separator agree before it and behind
/// it.
proof fn lemma_split_once(a: Seq<char>, rest_a: Seq<char>, b: Seq<char>, rest_b: Seq<char>)
    requires
        segment(a),
        segment(b),
        a + "/"@ + rest_a == b + "/"@ + rest_b,
    ensures
        a == b,
        rest_a == rest_b,
{
    reveal_strlit("/");
    let joined_a = a + "/"@ + rest_a;
    let joined_b = b + "/"@ + rest_b;
    assert(joined_a[a.len() as int] == '/');
    assert(joined_b[b.len() as int] == '/');
    if a.len() < b.len() {
        assert(b[a.len() as int] == joined_b[a.len() as int]);
        assert(is_segment_char(b[a.len() as int]));
    } else if b.len() < a.len() {
        assert(a[b.len() as int] == joined_a[b.len() as int]);
        assert(is_segment_char(a[b.len() as int]));
    }
    assert(a.len() == b.len());
    assert forall|i: int| 0 <= i < a.len() implies a[i] == b[i] by {
        assert(joined_a[i] == a[i] && joined_b[i] == b[i]);
    }
    assert(a =~= b);
    assert(joined_a.len() == a.len() + 1 + rest_a.len());
    assert(joined_b.len() == b.len() + 1 + rest_b.len());
    assert forall|i: int| 0 <= i < rest_a.len() implies rest_a[i] == rest_b[i] by {
        assert(joined_a[a.len() + 1 + i] == rest_a[i]);
        assert(joined_b[b.len() + 1 + i] == rest_b[i]);
    }
    assert(rest_a =~= rest_b);
}

/// Different scopes have different keys: the key gives every segment back. So scopes that
/// differ in their node alone do not contend for one lock either, and the handoff of a
/// workload from node to node is guarded by the placement epoch of its record instead.
pub proof fn law_lock_keys_are_distinct(a: ScopeSegments, b: ScopeSegments)
    requires
        a.valid(),
        b.valid(),
        a.key() == b.key(),
    ensures
        a == b,
{
    reveal_strlit("/");
    let head = LOCK_PREFIX@ + "/"@;
    let tail_a = a.product + "/"@ + (a.cluster + "/"@ + (a.node + "/"@ + a.workload));
    let tail_b = b.product + "/"@ + (b.cluster + "/"@ + (b.node + "/"@ + b.workload));
    assert(a.key() =~= head + tail_a);
    assert(b.key() =~= head + tail_b);
    assert(tail_a =~= a.key().skip(head.len() as int));
    assert(tail_b =~= b.key().skip(head.len() as int));
    lemma_split_once(
        a.product,
        a.cluster + "/"@ + (a.node + "/"@ + a.workload),
        b.product,
        b.cluster + "/"@ + (b.node + "/"@ + b.workload),
    );
    lemma_split_once(
        a.cluster,
        a.node + "/"@ + a.workload,
        b.cluster,
        b.node + "/"@ + b.workload,
    );
    lemma_split_once(a.node, a.workload, b.node, b.workload);
}

/// A lock key has a bounded length, since its segments have.
pub proof fn law_lock_keys_are_bounded(scope: ScopeSegments)
    requires
        scope.valid(),
    ensures
        scope.key().len() <= LOCK_PREFIX@.len() + 4 * (MAX_SEGMENT_BYTES + 1),
{
    reveal_strlit("/");
}

/// A scope is valid exactly where each of its segments has one to ninety-six letters, digits
/// and characters `-`, `_`, `.` and `:`, so that no separator stands in it.
pub proof fn law_which_segments_are_valid(value: Seq<char>)
    ensures
        segment(value) <==> 1 <= value.len() <= 96 && forall|i: int|
            0 <= i < value.len() ==> {
                ||| 'a' <= #[trigger] value[i] <= 'z'
                ||| 'A' <= value[i] <= 'Z'
                ||| '0' <= value[i] <= '9'
                ||| value[i] == '-' || value[i] == '_' || value[i] == '.' || value[i] == ':'
            },
        segment(value) ==> !value.contains('/'),
{
    if segment(value) && value.contains('/') {
        let i = choose|i: int| 0 <= i < value.len() && value[i] == '/';
        assert(is_segment_char(value[i]));
    }
}

/// A scope is refused exactly where one of its segments is, and by the first of them, in the
/// order of the key.
pub proof fn law_first_bad_segment_refuses_a_scope(scope: ScopeSegments)
    ensures
        scope.fault() is None <==> segment(scope.product) && segment(scope.cluster) && segment(
            scope.node,
        ) && segment(scope.workload),
        !segment(scope.product) ==> scope.fault() == Some(ScopeFault::InvalidSegment("product"@)),
        segment(scope.product) && !segment(scope.cluster) ==> scope.fault() == Some(
            ScopeFault::InvalidSegment("cluster"@),
        ),
        segment(scope.product) && segment(scope.cluster) && !segment(scope.node) ==> scope.fault()
            == Some(ScopeFault::InvalidSegment("node"@)),
        segment(scope.product) && segment(scope.cluster) && segment(scope.node) && !segment(
            scope.workload,
        ) ==> scope.fault() == Some(ScopeFault::InvalidSegment("workload"@)),
        scope.valid() <==> scope.fault() is None,
{
}

/// A key cut at its separators gives the prefix and the four segments of its scope, in order.
pub proof fn law_keys_read_back(scope: ScopeSegments)
    requires
        scope.valid(),
    ensures
        split(scope.key(), '/') == seq![
            "process-lifecycle"@,
            scope.product,
            scope.cluster,
            scope.node,
            scope.workload,
        ],
{
    reveal_strlit("/");
    reveal_strlit("process-lifecycle");
    let slash = seq!['/'];
    assert("/"@ =~= slash);
    let prefix = "process-lifecycle"@;
    assert(!prefix.contains('/'));
    law_which_segments_are_valid(scope.product);
    law_which_segments_are_valid(scope.cluster);
    law_which_segments_are_valid(scope.node);
    law_which_segments_are_valid(scope.workload);
    let from_node = scope.node + slash + scope.workload;
    let from_cluster = scope.cluster + slash + from_node;
    let from_product = scope.product + slash + from_cluster;
    assert(scope.key() =~= prefix + slash + from_product);
    law_split(scope.workload, '/', scope.workload);
    law_split(scope.node, '/', scope.workload);
    law_split(scope.cluster, '/', from_node);
    law_split(scope.product, '/', from_cluster);
    law_split(prefix, '/', from_product);
    assert(split(scope.key(), '/') =~= seq![
        prefix,
        scope.product,
        scope.cluster,
        scope.node,
        scope.workload,
    ]);
}

/// A refused segment is named in the message.
pub proof fn law_what_scope_messages_say(field: &'static str)
    ensures
        (LifecycleLeaseScopeError::InvalidSegment { field }).text()
            == "invalid process lifecycle lease "@ + field@ + " segment"@,
        LifecycleLeaseScopeError::LockKeyTooLong.text()
            == "process lifecycle lease key is too long"@,
{
}

} // verus!
