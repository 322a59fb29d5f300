//! Images across the cluster.
use vstd::prelude::*;
use vstd::string::*;
use crate::api::reply::{reply, text_reply, Reply};
#[allow(unused_imports)]
use crate::api::reply::{answer, json_answer, one_text};
use crate::container::image::{sort_by_size, ImageInfo};
#[allow(unused_imports)]
use crate::container::image::{greatest_first, law_sorting_keeps_images, ImageInfoV};
use crate::keys::key_of;
#[allow(unused_imports)]
use crate::keys::cluster_key;
#[allow(unused_imports)]
use crate::json::{lemma_plain_key, plain_key};

verus! {

/// The keys of the objects that are written here are plain.
proof fn lemma_keys()
    ensures
        plain_key("error"@),
{
    reveal_strlit("error");
    lemma_plain_key("error"@);
}

/// A request to pull an image.
#[derive(Debug)]
pub struct PullImageRequest {
    /// The image.
    pub image: String,
}

/// The images of some nodes in one list.
pub open spec fn all_images(nodes: Seq<Seq<ImageInfoV>>) -> Seq<ImageInfoV>
    decreases nodes.len(),
{
    if nodes.len() == 0 {
        Seq::empty()
    } else {
        all_images(nodes.drop_last()) + nodes.last()
    }
}

/// Lists the images of all nodes, the greatest first.
pub fn list_images(nodes: &Vec<Vec<ImageInfo>>) -> (r: Vec<ImageInfo>)
    ensures
        greatest_first(all_images(nodes.deep_view()), r.deep_view()),
{
    let ghost all = nodes.deep_view();
    let mut out: Vec<ImageInfo> = Vec::new();
    let mut i: usize = 0;
    assert(all.take(0) =~= Seq::<Seq<ImageInfoV>>::empty());
    assert(out.deep_view() =~= Seq::<ImageInfoV>::empty());
    while i < nodes.len()
        invariant
            i <= nodes@.len(),
            all == nodes.deep_view(),
            out.deep_view() == all_images(all.take(i as int)),
        decreases nodes@.len() - i,
    {
        let ghost base = out.deep_view();
        let ghost these = nodes@[i as int].deep_view();
        let mut j: usize = 0;
        assert(base + these.take(0) =~= base);
        while j < nodes[i].len()
            invariant
                i < nodes@.len(),
                j <= nodes@[i as int]@.len(),
                these == nodes@[i as int].deep_view(),
                out.deep_view() == base + these.take(j as int),
            decreases nodes@[i as int]@.len() - j,
        {
            let ghost before = out.deep_view();
            assert(these[j as int] == nodes@[i as int]@[j as int].deep_view());
            out.push(nodes[i][j].clone());
            assert(out.deep_view() =~= before.push(these[j as int]));
            assert(these.take(j + 1) =~= these.take(j as int).push(these[j as int]));
            assert(out.deep_view() =~= base + these.take(j + 1));
            j = j + 1;
        }
        assert(these.take(j as int) =~= these);
        assert(all.take(i + 1).drop_last() =~= all.take(i as int));
        assert(all.take(i + 1).last() == these);
        i = i + 1;
    }
    assert(all.take(i as int) =~= all);
    sort_by_size(&out)
}

/// Some images with the name of the node that has them.
pub open spec fn tagged(images: Seq<ImageInfoV>, node: Seq<char>) -> Seq<ImageInfoV> {
    Seq::new(images.len(), |i: int| ImageInfoV { node_name: node, ..images[i] })
}

/// Takes in the images that a node reports: where they are stored, and with the
/// node's name in each.
pub fn report_node_images(node_name: &str, images: &Vec<ImageInfo>) -> (r: (
    String,
    Vec<ImageInfo>,
))
    ensures
        r.0@ == cluster_key("images"@, node_name@),
        r.1.deep_view() == tagged(images.deep_view(), node_name@),
{
    let mut out: Vec<ImageInfo> = Vec::new();
    let mut i: usize = 0;
    while i < images.len()
        invariant
            i <= images@.len(),
            out@.len() == i,
            forall|j: int|
                0 <= j < i ==> (#[trigger] out@[j]).deep_view() == (ImageInfoV {
                    node_name: node_name@,
                    ..images@[j].deep_view()
                }),
        decreases images@.len() - i,
    {
        let mut image: ImageInfo = images[i].clone();
        image.node_name = node_name.to_owned();
        out.push(image);
        i = i + 1;
    }
    assert(out.deep_view() =~= tagged(images.deep_view(), node_name@));
    (key_of("images", node_name), out)
}

/// The answer to a request to pull an image, which the control plane does not do.
pub fn pull_image() -> (r: Reply)
    ensures
        r.deep_view() == answer(
            501,
            "Image pull is handled by the Agent node. The server (control plane) does not pull or cache images."@,
        ),
{
    reply(
        501,
        "Image pull is handled by the Agent node. The server (control plane) does not pull or cache images.",
    )
}

/// The answer to a request to delete an image, which the control plane does not
/// do.
pub fn delete_image() -> (r: Reply)
    ensures
        r.deep_view() == answer(
            501,
            "Image delete is handled by the Agent node. The server (control plane) does not manage local images."@,
        ),
{
    reply(
        501,
        "Image delete is handled by the Agent node. The server (control plane) does not manage local images.",
    )
}

/// The answer to a question about the runtime, which only agents have.
pub fn get_runtime_info() -> (r: Reply)
    ensures
        r.deep_view() == json_answer(
            501,
            one_text(
                "error"@,
                "Runtime info is available per-agent via the Agent API. The server (control plane) does not run containers."@,
            ),
        ),
{
    proof {
        lemma_keys();
    }
    text_reply(
        501,
        "error",
        "Runtime info is available per-agent via the Agent API. The server (control plane) does not run containers.",
    )
}

/// The answer to a request to upgrade the runtime, which only agents have.
pub fn upgrade_runtime() -> (r: Reply)
    ensures
        r.deep_view() == json_answer(
            501,
            one_text(
                "error"@,
                "Runtime upgrade is handled per-agent via the Agent API. The server (control plane) does not manage container runtimes."@,
            ),
        ),
{
    proof {
        lemma_keys();
    }
    text_reply(
        501,
        "error",
        "Runtime upgrade is handled per-agent via the Agent API. The server (control plane) does not manage container runtimes.",
    )
}

proof fn lemma_all_images(nodes: Seq<Seq<ImageInfoV>>, x: ImageInfoV)
    ensures
        all_images(nodes).contains(x) <==> exists|n: int|
            0 <= n < nodes.len() && (#[trigger] nodes[n]).contains(x),
    decreases nodes.len(),
{
    if nodes.len() > 0 {
        let init = nodes.drop_last();
        lemma_all_images(init, x);
        let all = all_images(nodes);
        let before = all_images(init);
        if all.contains(x) {
            let k = choose|k: int| 0 <= k < all.len() && all[k] == x;
            if k < before.len() {
                assert(before[k] == x);
                let n = choose|n: int| 0 <= n < init.len() && (#[trigger] init[n]).contains(x);
                assert(nodes[n].contains(x));
            } else {
                assert(nodes.last()[k - before.len()] == x);
                assert(nodes[nodes.len() - 1].contains(x));
            }
        }
        if exists|n: int| 0 <= n < nodes.len() && (#[trigger] nodes[n]).contains(x) {
            let n = choose|n: int| 0 <= n < nodes.len() && (#[trigger] nodes[n]).contains(x);
            if n < init.len() {
                assert(init[n].contains(x));
                let k = choose|k: int| 0 <= k < before.len() && before[k] == x;
                assert(all[k] == x);
            } else {
                let k = choose|k: int| 0 <= k < nodes.last().len() && nodes.last()[k] == x;
                assert(all[before.len() + k] == x);
            }
        }
    }
}

/// The images of the cluster are those of its nodes, every one of them and no
/// other, and none stands before a greater one.
pub proof fn law_images_of_all_nodes(
    nodes: Vec<Vec<ImageInfo>>,
    r: Vec<ImageInfo>,
    x: ImageInfoV,
)
    requires
        call_ensures(list_images, (&nodes,), r),
    ensures
        r.deep_view().contains(x) <==> exists|n: int|
            0 <= n < nodes.len() && (#[trigger] nodes.deep_view()[n]).contains(x),
        forall|i: int, j: int|
            0 <= i < j < r.len() ==> (#[trigger] r.deep_view()[i]).size >= (
            #[trigger] r.deep_view()[j]).size,
{
    lemma_all_images(nodes.deep_view(), x);
    law_sorting_keeps_images(all_images(nodes.deep_view()), r.deep_view(), x);
}

/// A node's images are stored under its name, each marked as the node's and
/// otherwise as reported.
pub proof fn law_images_are_reported(
    node_name: &str,
    images: Vec<ImageInfo>,
    r: (String, Vec<ImageInfo>),
    i: int,
)
    requires
        call_ensures(report_node_images, (node_name, &images), r),
        0 <= i < images.len(),
    ensures
        r.0@ == "/registry/"@ + "images"@ + "/"@ + node_name@,
        r.1.len() == images.len(),
        r.1.deep_view()[i].node_name == node_name@,
        r.1.deep_view()[i] == (ImageInfoV {
            node_name: node_name@,
            ..images.deep_view()[i]
        }),
{
    assert(r.1.deep_view().len() == r.1.len());
}

} // verus!
