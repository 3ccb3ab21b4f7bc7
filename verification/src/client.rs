//! Addresses on the download servers, and the choice of a server.

use vstd::prelude::*;

use crate::error::{Error, ErrorView};
use crate::text;
use crate::types::{CdnNode, LauncherIndex, PatchConfig};

verus! {

/// The sum of the weights of the first `n` nodes.
pub open spec fn weight_of_first(nodes: Seq<CdnNode>, n: int) -> nat
    decreases n,
{
    if n <= 0 {
        0
    } else {
        weight_of_first(nodes, n - 1) + nodes[n - 1].p as nat
    }
}

/// The sum of all weights.
pub open spec fn total_weight(nodes: Seq<CdnNode>) -> nat {
    weight_of_first(nodes, nodes.len() as int)
}

/// Whether the node at `i` owns `roll`: each node owns as many numbers as its weight, one node
/// after the other.
pub open spec fn owns_roll(nodes: Seq<CdnNode>, roll: int, i: int) -> bool {
    &&& 0 <= i < nodes.len()
    &&& weight_of_first(nodes, i) <= roll < weight_of_first(nodes, i) + nodes[i].p
}

proof fn lemma_weight_grows(nodes: Seq<CdnNode>, i: int, j: int)
    requires
        0 <= i <= j <= nodes.len(),
    ensures
        weight_of_first(nodes, i) <= weight_of_first(nodes, j),
    decreases j - i,
{
    if i < j {
        lemma_weight_grows(nodes, i, j - 1);
    }
}

/// Every number below the total weight is owned by exactly one node, and a node of weight 0 owns
/// none.
pub proof fn law_rolls_are_owned(nodes: Seq<CdnNode>, roll: int)
    requires
        0 <= roll < total_weight(nodes),
    ensures
        exists|i: int| owns_roll(nodes, roll, i),
        forall|i: int, j: int| owns_roll(nodes, roll, i) && owns_roll(nodes, roll, j) ==> i == j,
        forall|i: int| owns_roll(nodes, roll, i) ==> nodes[i].p > 0,
{
    lemma_owner_exists(nodes, roll, nodes.len() as int);
    assert forall|i: int, j: int|
        owns_roll(nodes, roll, i) && owns_roll(nodes, roll, j) implies i == j by {
        if i < j {
            lemma_weight_grows(nodes, i + 1, j);
        }
        if j < i {
            lemma_weight_grows(nodes, j + 1, i);
        }
    }
}

proof fn lemma_owner_exists(nodes: Seq<CdnNode>, roll: int, n: int)
    requires
        0 <= n <= nodes.len(),
        0 <= roll < weight_of_first(nodes, n),
    ensures
        exists|i: int| owns_roll(nodes, roll, i),
    decreases n,
{
    if weight_of_first(nodes, n - 1) <= roll {
        assert(owns_roll(nodes, roll, n - 1));
    } else {
        lemma_owner_exists(nodes, roll, n - 1);
    }
}

/// The address of a manifest.
pub open spec fn manifest_address(cdn: Seq<char>, file: Seq<char>) -> Seq<char> {
    text::drop_trail(cdn, text::is_char('/')) + "/"@ + text::drop_lead(file, text::is_char('/'))
}

/// The address of a patch.
pub open spec fn krpdiff_address(cdn: Seq<char>, base: Seq<char>, name: Seq<char>) -> Seq<char> {
    text::drop_trail(cdn, text::is_char('/')) + "/"@ + text::drop_both(base, text::is_char('/'))
        + "/"@ + name
}

/// The address of a full file.
pub open spec fn resource_address(cdn: Seq<char>, folder: Seq<char>, dest: Seq<char>) -> Seq<char> {
    text::drop_trail(cdn, text::is_char('/')) + "/"@ + text::drop_both(folder, text::is_char('/'))
        + "/"@ + text::drop_lead(dest, text::is_char('/'))
}

/// Where the manifest of a release and its files are fetched from.
#[derive(Debug)]
pub struct ManifestSource {
    /// The server.
    pub cdn: String,
    /// The address of the manifest.
    pub url: String,
    /// The folder of the files on the server.
    pub base_url: String,
    /// The version of the release.
    pub version: String,
}

/// The launcher's addresses and its choice of a server.
pub struct ApiClient {}

impl ApiClient {
    /// Whether the weights of an index can be added up.
    pub fn weights_fit(index: &LauncherIndex) -> (r: bool)
        ensures
            r == (total_weight(index.default.cdn_list@) <= u64::MAX),
    {
        let nodes = &index.default.cdn_list;
        let mut sum: u64 = 0;
        let mut i: usize = 0;
        while i < nodes.len()
            invariant
                i <= nodes@.len(),
                nodes@ == index.default.cdn_list@,
                sum == weight_of_first(nodes@, i as int),
            decreases nodes@.len() - i,
        {
            if nodes[i].p > u64::MAX - sum {
                proof {
                    lemma_weight_grows(nodes@, i + 1, nodes@.len() as int);
                }
                return false;
            }
            sum = sum + nodes[i].p;
            i = i + 1;
        }
        true
    }

    /// Picks a node at random, each with the chance that its weight gives; `nanos` is the random
    /// number. Nodes of weight 0 are never picked.
    pub fn pick_cdn(index: &LauncherIndex, nanos: u64) -> (r: Result<&CdnNode, Error>)
        requires
            total_weight(index.default.cdn_list@) <= u64::MAX,
        ensures
            ({
                let nodes = index.default.cdn_list@;
                let total = total_weight(nodes) as int;
                match r {
                    Ok(node) => total > 0 && exists|i: int|
                        #[trigger] owns_roll(nodes, nanos as int % total, i) && *node == nodes[i],
                    Err(e) => total == 0 && e.deep_view() == ErrorView::NoCdnNode,
                }
            }),
    {
        let nodes = &index.default.cdn_list;
        let mut total: u64 = 0;
        let mut i: usize = 0;
        while i < nodes.len()
            invariant
                i <= nodes@.len(),
                total == weight_of_first(nodes@, i as int),
                total_weight(nodes@) <= u64::MAX,
            decreases nodes@.len() - i,
        {
            proof {
                lemma_weight_grows(nodes@, i + 1, nodes@.len() as int);
            }
            total = total + nodes[i].p;
            i = i + 1;
        }
        if total == 0 {
            return Err(Error::NoCdnNode);
        }
        let roll: u64 = nanos % total;
        let mut left: u64 = roll;
        let mut k: usize = 0;
        while k < nodes.len()
            invariant
                k <= nodes@.len(),
                nodes@ == index.default.cdn_list@,
                total == total_weight(nodes@),
                roll == nanos as int % total as int,
                roll < total,
                roll == weight_of_first(nodes@, k as int) + left,
            decreases nodes@.len() - k,
        {
            if left < nodes[k].p {
                assert(owns_roll(nodes@, roll as int, k as int));
                return Ok(&nodes[k]);
            }
            left = left - nodes[k].p;
            k = k + 1;
        }
        assert(false);
        Err(Error::NoCdnNode)
    }

    /// The address of a manifest (`index_file` of a launcher or patch configuration).
    pub fn manifest_url(cdn_base: &str, index_file: &str) -> (r: String)
        ensures
            r@ == manifest_address(cdn_base@, index_file@),
    {
        let file = text::trim_start_matches(index_file, '/');
        text::trim_end_matches(cdn_base, '/').concat("/").concat(file.as_str())
    }

    /// The address of a patch.
    pub fn krpdiff_url(cdn_base: &str, patch: &PatchConfig, name: &str) -> (r: String)
        ensures
            r@ == krpdiff_address(cdn_base@, patch.base_url@, name@),
    {
        let base = text::trim_matches(patch.base_url.as_str(), '/');
        text::trim_end_matches(cdn_base, '/').concat("/").concat(base.as_str()).concat("/").concat(
            name,
        )
    }

    /// The address of a full file.
    pub fn resource_url(cdn_base: &str, from_folder: &str, dest: &str) -> (r: String)
        ensures
            r@ == resource_address(cdn_base@, from_folder@, dest@),
    {
        let folder = text::trim_matches(from_folder, '/');
        let rel = text::trim_start_matches(dest, '/');
        text::trim_end_matches(cdn_base, '/').concat("/").concat(folder.as_str()).concat(
            "/",
        ).concat(rel.as_str())
    }

    /// The manifest of the live release, on a server that is picked at random; `nanos` is the
    /// random number.
    pub fn manifest_source(index: &LauncherIndex, nanos: u64) -> (r: Result<ManifestSource, Error>)
        requires
            total_weight(index.default.cdn_list@) <= u64::MAX,
        ensures
            ({
                let nodes = index.default.cdn_list@;
                let total = total_weight(nodes) as int;
                match r {
                    Ok(s) => {
                        &&& total > 0
                        &&& exists|i: int|
                            #[trigger] owns_roll(nodes, nanos as int % total, i) && s.cdn@
                                == nodes[i].url@
                        &&& s.url@ == manifest_address(s.cdn@, index.default.config.index_file@)
                        &&& s.base_url@ == index.default.config.base_url@
                        &&& s.version@ == index.default.config.version@
                    },
                    Err(e) => total == 0 && e.deep_view() == ErrorView::NoCdnNode,
                }
            }),
    {
        let config = &index.default.config;
        match Self::pick_cdn(index, nanos) {
            Err(e) => Err(e),
            Ok(node) => Ok(
                ManifestSource {
                    cdn: node.url.clone(),
                    url: Self::manifest_url(node.url.as_str(), config.index_file.as_str()),
                    base_url: config.base_url.clone(),
                    version: config.version.clone(),
                },
            ),
        }
    }
}

/// The weights of some nodes.
pub open spec fn weights(nodes: Seq<CdnNode>) -> Seq<int> {
    nodes.map_values(|n: CdnNode| n.p as int)
}

/// What nodes weigh together is the sum of what they weigh one by one.
pub proof fn law_weights_add_up(nodes: Seq<CdnNode>, n: int)
    requires
        0 <= n <= nodes.len(),
    ensures
        weight_of_first(nodes, n) == weights(nodes.take(n)).fold_left(0int, |a: int, b: int| a + b),
    decreases n,
{
    let sum = |a: int, b: int| a + b;
    let now = weights(nodes.take(n));
    reveal_with_fuel(Seq::fold_left, 2);
    if n > 0 {
        law_weights_add_up(nodes, n - 1);
        assert(now.drop_last() =~= weights(nodes.take(n - 1)));
        assert(now.last() == nodes[n - 1].p);
    }
}

/// A node owns as many numbers as it weighs, behind those of the nodes before it.
pub proof fn law_node_owns_its_share(nodes: Seq<CdnNode>, roll: int, i: int)
    requires
        0 <= i < nodes.len(),
    ensures
        ({
            let before = weights(nodes.take(i)).fold_left(0int, |a: int, b: int| a + b);
            owns_roll(nodes, roll, i) <==> before <= roll && roll - before < nodes[i].p
        }),
        total_weight(nodes) == weights(nodes).fold_left(0int, |a: int, b: int| a + b),
{
    law_weights_add_up(nodes, i);
    law_weights_add_up(nodes, nodes.len() as int);
    assert(nodes.take(nodes.len() as int) =~= nodes);
}

}
