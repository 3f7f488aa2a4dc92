//! Shared data models around the core: chat roles, storage results, health
//! reporting, service configuration, and the bodies of the cancel endpoint's
//! replies.

use vstd::prelude::*;

verus! {

/// Who authored a chat message.
#[derive(Clone, Copy, Debug, PartialEq, Eq, Structural)]
pub enum MessageRole {
    User,
    Assistant,
    System,
}

impl MessageRole {
    /// The wire name of the role.
    pub fn as_str(&self) -> (r: &'static str)
        ensures
            self is User ==> r@ == "user"@,
            self is Assistant ==> r@ == "assistant"@,
            self is System ==> r@ == "system"@,
    {
        match self {
            MessageRole::User => "user",
            MessageRole::Assistant => "assistant",
            MessageRole::System => "system",
        }
    }
}

/// What the binary object store reports after an upload.
#[derive(Clone, Debug, PartialEq, Eq)]
pub struct StorageResult {
    pub storage_path: String,
    pub public_url: String,
    pub size: u64,
    pub mime_type: String,
    pub hash: String,
}

/// One failure inside a batch operation.
#[derive(Clone, Debug, PartialEq, Eq)]
pub struct BatchError {
    pub index: usize,
    pub filename: Option<String>,
    pub error: String,
}

/// The per-collaborator health flags.
#[derive(Clone, Copy, Debug, PartialEq, Eq, Structural)]
pub struct ServiceHealth {
    pub database: bool,
    pub redis: bool,
    pub s3: bool,
    pub ollama: bool,
}

/// The service's health report.
#[derive(Clone, Debug, PartialEq, Eq)]
pub struct HealthStatus {
    pub status: String,
    pub version: String,
    pub services: ServiceHealth,
}

impl HealthStatus {
    /// The all-green report.
    pub fn healthy() -> (r: Self)
        ensures
            r.status@ == "healthy"@,
            r.services == (ServiceHealth { database: true, redis: true, s3: true, ollama: true }),
    {
        HealthStatus {
            status: String::from_str("healthy"),
            version: String::from_str("0.1.0"),
            services: ServiceHealth { database: true, redis: true, s3: true, ollama: true },
        }
    }

    /// Healthy means every collaborator answered.
    pub fn is_healthy(&self) -> (r: bool)
        ensures
            r == (self.services.database && self.services.redis && self.services.s3
                && self.services.ollama),
    {
        self.services.database && self.services.redis && self.services.s3 && self.services.ollama
    }
}

/// Where the binary object store lives and how to sign for it.
#[derive(Clone, Debug, PartialEq, Eq)]
pub struct S3Config {
    pub bucket: String,
    pub region: String,
    pub endpoint: Option<String>,
    pub access_key: String,
    pub secret_key: String,
    pub public_url_base: String,
}

/// Which models the inference backend serves, and where.
#[derive(Clone, Debug, PartialEq, Eq)]
pub struct AiConfig {
    pub url: String,
    pub text_model: String,
    pub vision_model: String,
    pub chat_model: String,
}

/// The service's own configuration. Reading it from the environment is the
/// embedding program's concern; the core only carries the values.
#[derive(Clone, Debug, PartialEq, Eq)]
pub struct Config {
    pub database_url: String,
    pub s3: S3Config,
    pub host: String,
    pub port: u16,
}

/// The cancel endpoint's reply when a request was found.
#[derive(Clone, Debug, PartialEq, Eq)]
pub struct CancelResponse {
    pub success: bool,
    pub request_id: String,
    pub message: String,
}

/// The cancel endpoint's reply when nothing was found to cancel.
#[derive(Clone, Debug, PartialEq, Eq)]
pub struct CancelErrorResponse {
    pub error: String,
    pub message: String,
}

// The persistent store keys tree nodes by UUID; the identifier itself is
// carried through opaquely.
#[verifier::external_type_specification]
#[verifier::external_body]
pub struct ExUuid(uuid::Uuid);

/// Relies on uuid::Uuid's derived PartialEq: equality of the identifiers'
/// sixteen bytes, which is equality of the values.
pub assume_specification[ <uuid::Uuid as PartialEq>::eq ](a: &uuid::Uuid, b: &uuid::Uuid) -> (r:
    bool)
    ensures
        r == (a == b),
;

/// Relies on uuid::Uuid's derived Clone: an identifier copies as itself.
pub assume_specification[ <uuid::Uuid as Clone>::clone ](a: &uuid::Uuid) -> (r: uuid::Uuid)
    ensures
        r == *a,
;

/// The kind of a node in the object tree.
#[derive(Clone, Copy, Debug, PartialEq, Eq, Structural)]
pub enum NodeType {
    Root,
    Branch,
    ImageLeaf,
}

/// What a tree node carries, by kind.
#[derive(Clone, Debug, PartialEq)]
pub enum NodeData {
    Root { title: String },
    Branch { label: String, description: Option<String> },
    Image {
        url: String,
        storage_path: Option<String>,
        size: Option<u64>,
        mime_type: Option<String>,
        hash: Option<String>,
        description: Option<String>,
    },
}

/// One node of the object tree, with its children inline.
#[derive(Debug, PartialEq)]
pub struct TreeNode {
    pub id: uuid::Uuid,
    pub parent_id: Option<uuid::Uuid>,
    pub node_type: NodeType,
    pub data: NodeData,
    pub children: Vec<TreeNode>,
    pub created_at: String,
}

/// The smaller of two naturals.
pub open spec fn nat_min(a: nat, b: nat) -> nat {
    if a < b {
        a
    } else {
        b
    }
}

/// The depth of a node: zero for a node without children, else one more
/// than its deepest child.
pub open spec fn spec_depth(n: TreeNode) -> nat
    decreases n,
{
    if n.children@.len() == 0 {
        0
    } else {
        1 + max_child_depth(n.children@, n.children@.len() as int)
    }
}

/// The deepest among the first `k` children.
pub open spec fn max_child_depth(cs: Seq<TreeNode>, k: int) -> nat
    decreases cs, k,
{
    if k <= 0 || k > cs.len() {
        0
    } else {
        let d = spec_depth(cs[k - 1]);
        let rest = max_child_depth(cs, k - 1);
        if d > rest {
            d
        } else {
            rest
        }
    }
}

/// The number of nodes in the subtree under (and including) `n`.
pub open spec fn spec_count(n: TreeNode) -> nat
    decreases n,
{
    1 + count_children(n.children@, n.children@.len() as int)
}

/// The number of nodes in the subtrees of the first `k` children.
pub open spec fn count_children(cs: Seq<TreeNode>, k: int) -> nat
    decreases cs, k,
{
    if k <= 0 || k > cs.len() {
        0
    } else {
        spec_count(cs[k - 1]) + count_children(cs, k - 1)
    }
}

/// The first node with the given id, in depth-first pre-order.
pub open spec fn spec_find(n: TreeNode, id: uuid::Uuid) -> Option<TreeNode>
    decreases n,
{
    if n.id == id {
        Some(n)
    } else {
        find_in_children(n.children@, id, 0)
    }
}

/// The first hit among the children from position `j` on.
pub open spec fn find_in_children(cs: Seq<TreeNode>, id: uuid::Uuid, j: int) -> Option<TreeNode>
    decreases cs, cs.len() - j,
{
    if j < 0 || j >= cs.len() {
        None
    } else {
        match spec_find(cs[j], id) {
            Some(f) => Some(f),
            None => find_in_children(cs, id, j + 1),
        }
    }
}

/// The leaves of the subtree under `n`, left to right. A node is a leaf
/// when its type says so, regardless of stray children.
pub open spec fn spec_leaves(n: TreeNode) -> Seq<TreeNode>
    decreases n,
{
    if n.node_type is ImageLeaf {
        seq![n]
    } else {
        leaves_of_children(n.children@, n.children@.len() as int)
    }
}

/// The leaves of the first `k` children, concatenated.
pub open spec fn leaves_of_children(cs: Seq<TreeNode>, k: int) -> Seq<TreeNode>
    decreases cs, k,
{
    if k <= 0 || k > cs.len() {
        Seq::empty()
    } else {
        leaves_of_children(cs, k - 1) + spec_leaves(cs[k - 1])
    }
}

impl TreeNode {
    /// Whether this node is an image leaf.
    pub fn is_leaf(&self) -> (r: bool)
        ensures
            r == (self.node_type is ImageLeaf),
    {
        match self.node_type {
            NodeType::ImageLeaf => true,
            _ => false,
        }
    }

    /// Whether any children hang below this node.
    pub fn has_children(&self) -> (r: bool)
        ensures
            r == (self.children@.len() > 0),
    {
        self.children.len() > 0
    }

    /// The depth of this node's subtree, saturating at the machine bound.
    pub fn depth(&self) -> (r: usize)
        ensures
            r as nat == nat_min(spec_depth(*self), usize::MAX as nat),
        decreases *self,
    {
        if self.children.len() == 0 {
            return 0;
        }
        let mut best: usize = 0;
        let mut i: usize = 0;
        while i < self.children.len()
            invariant
                i <= self.children@.len(),
                best as nat == nat_min(
                    max_child_depth(self.children@, i as int),
                    usize::MAX as nat,
                ),
            decreases self.children@.len() - i,
        {
            let d = self.children[i].depth();
            if d > best {
                best = d;
            }
            i = i + 1;
        }
        if best == usize::MAX {
            usize::MAX
        } else {
            best + 1
        }
    }

    /// The size of this node's subtree, saturating at the machine bound.
    pub fn count_nodes(&self) -> (r: usize)
        ensures
            r as nat == nat_min(spec_count(*self), usize::MAX as nat),
        decreases *self,
    {
        let mut acc: usize = 1;
        let mut i: usize = 0;
        while i < self.children.len()
            invariant
                i <= self.children@.len(),
                acc as nat == nat_min(
                    1 + count_children(self.children@, i as int),
                    usize::MAX as nat,
                ),
            decreases self.children@.len() - i,
        {
            let c = self.children[i].count_nodes();
            if acc > usize::MAX - c {
                acc = usize::MAX;
            } else {
                acc = acc + c;
            }
            i = i + 1;
        }
        acc
    }

    /// Finds the first node with the given id, depth-first.
    pub fn find_node(&self, id: &uuid::Uuid) -> (r: Option<&TreeNode>)
        ensures
            match r {
                Some(f) => spec_find(*self, *id) == Some(*f),
                None => spec_find(*self, *id) is None,
            },
        decreases *self,
    {
        if self.id == *id {
            return Some(self);
        }
        let mut j: usize = 0;
        while j < self.children.len()
            invariant
                j <= self.children@.len(),
                self.id != *id,
                find_in_children(self.children@, *id, 0) == find_in_children(
                    self.children@,
                    *id,
                    j as int,
                ),
            decreases self.children@.len() - j,
        {
            match self.children[j].find_node(id) {
                Some(f) => {
                    return Some(f);
                },
                None => {},
            }
            j = j + 1;
        }
        None
    }

    /// Collects the image leaves of this subtree, left to right.
    pub fn collect_leaves(&self) -> (r: Vec<&TreeNode>)
        ensures
            r@.map_values(|p: &TreeNode| *p) == spec_leaves(*self),
        decreases *self,
    {
        let mut out: Vec<&TreeNode> = Vec::new();
        if self.is_leaf() {
            out.push(self);
            proof {
                assert(out@.map_values(|p: &TreeNode| *p) =~= spec_leaves(*self));
            }
            return out;
        }
        let mut i: usize = 0;
        proof {
            assert(out@.map_values(|p: &TreeNode| *p) =~= leaves_of_children(
                self.children@,
                0,
            ));
        }
        while i < self.children.len()
            invariant
                i <= self.children@.len(),
                !(self.node_type is ImageLeaf),
                out@.map_values(|p: &TreeNode| *p) == leaves_of_children(
                    self.children@,
                    i as int,
                ),
            decreases self.children@.len() - i,
        {
            let mut sub = self.children[i].collect_leaves();
            let ghost out0 = out@;
            let ghost sub0 = sub@;
            let mut k: usize = 0;
            while k < sub.len()
                invariant
                    k <= sub@.len(),
                    sub@ == sub0,
                    out@ == out0 + sub0.take(k as int),
                decreases sub@.len() - k,
            {
                out.push(sub[k]);
                proof {
                    assert(out0 + sub0.take(k + 1) =~= (out0 + sub0.take(k as int)).push(
                        sub0[k as int],
                    ));
                }
                k = k + 1;
            }
            proof {
                assert(out@ =~= out0 + sub0);
                assert(out@.map_values(|p: &TreeNode| *p) =~= out0.map_values(
                    |p: &TreeNode| *p,
                ) + sub0.map_values(|p: &TreeNode| *p));
                assert(out@.map_values(|p: &TreeNode| *p) =~= leaves_of_children(
                    self.children@,
                    i + 1,
                ));
            }
            i = i + 1;
        }
        out
    }
}

} // verus!
