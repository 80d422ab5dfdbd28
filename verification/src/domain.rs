//! How a probe outcome becomes the status a matrix cell is painted with.

use vstd::prelude::*;

use crate::proto::{Capabilities, ProbeResponse};
use crate::status::ResultStatus;
use crate::text::{list_contains, views};

verus! {

/// The adapter advertises `alg`, as a group or as a signature algorithm.
pub open spec fn known(caps: Capabilities, alg: Seq<char>) -> bool {
    views(caps.kem_groups@).contains(alg) || views(caps.sig_algs@).contains(alg)
}

/// None of the offered algorithms is one the adapter advertises.
pub open spec fn none_known(offered: Seq<Seq<char>>, caps: Capabilities) -> bool {
    forall|i: int| 0 <= i < offered.len() ==> !known(caps, #[trigger] offered[i])
}

/// `unsupported` when the stack never advertised any offered algorithm, else passed or
/// failed by the handshake.
pub open spec fn classify_spec(success: bool, offered: Seq<Seq<char>>, caps: Capabilities) -> ResultStatus {
    if none_known(offered, caps) {
        ResultStatus::Unsupported
    } else if success {
        ResultStatus::Passed
    } else {
        ResultStatus::Failed
    }
}

/// Maps an adapter probe result onto the status vocabulary of the matrix.
///
/// `unsupported` is deliberately distinct from `failed`: a stack that never offered the
/// algorithm has not told us anything about the target.
pub fn classify(response: &ProbeResponse, offered: &[String], capabilities: &Capabilities) -> (res:
    ResultStatus)
    ensures
        res == classify_spec(response.handshake_success, views(offered@), *capabilities),
{
    let mut i: usize = 0;
    let mut unsupported = true;
    while i < offered.len()
        invariant
            0 <= i <= offered@.len(),
            unsupported == forall|j: int| 0 <= j < i ==> !known(*capabilities, #[trigger] views(offered@)[j]),
        decreases offered@.len() - i,
    {
        let alg = offered[i].as_str();
        if list_contains(capabilities.kem_groups.as_slice(), alg) || list_contains(
            capabilities.sig_algs.as_slice(),
            alg,
        ) {
            assert(known(*capabilities, views(offered@)[i as int]));
            unsupported = false;
        }
        i += 1;
    }
    if unsupported {
        return ResultStatus::Unsupported;
    }
    if response.handshake_success {
        ResultStatus::Passed
    } else {
        ResultStatus::Failed
    }
}

/// A cell is `unsupported` exactly when no offered algorithm is, character for
/// character, one of the groups or signature algorithms the adapter advertises.
pub proof fn lemma_unsupported_means_nothing_advertised(
    success: bool,
    offered: Seq<Seq<char>>,
    caps: Capabilities,
)
    ensures
        (classify_spec(success, offered, caps) == ResultStatus::Unsupported) <==> forall|i: int, j: int|
            #![trigger offered[i], caps.kem_groups@[j]]
            #![trigger offered[i], caps.sig_algs@[j]]
            0 <= i < offered.len() ==> (0 <= j < caps.kem_groups@.len() ==> caps.kem_groups@[j]@ != offered[i])
                && (0 <= j < caps.sig_algs@.len() ==> caps.sig_algs@[j]@ != offered[i]),
{
    let ks = views(caps.kem_groups@);
    let ss = views(caps.sig_algs@);
    if none_known(offered, caps) {
        assert forall|i: int, j: int|
            #![trigger offered[i], caps.kem_groups@[j]]
            #![trigger offered[i], caps.sig_algs@[j]]
            0 <= i < offered.len() implies (0 <= j < caps.kem_groups@.len() ==> caps.kem_groups@[j]@
            != offered[i]) && (0 <= j < caps.sig_algs@.len() ==> caps.sig_algs@[j]@ != offered[i]) by {
            assert(!known(caps, offered[i]));
            if 0 <= j < caps.kem_groups@.len() {
                assert(ks[j] == caps.kem_groups@[j]@);
            }
            if 0 <= j < caps.sig_algs@.len() {
                assert(ss[j] == caps.sig_algs@[j]@);
            }
        }
    } else {
        let i = choose|i: int| 0 <= i < offered.len() && known(caps, #[trigger] offered[i]);
        if ks.contains(offered[i]) {
            let j = choose|j: int| 0 <= j < ks.len() && ks[j] == offered[i];
            assert(caps.kem_groups@[j]@ == offered[i]);
        } else {
            let j = choose|j: int| 0 <= j < ss.len() && ss[j] == offered[i];
            assert(caps.sig_algs@[j]@ == offered[i]);
        }
    }
}

/// Whether a cell is `unsupported` depends only on what was offered and what the adapter
/// advertises, never on how the handshake went.
pub proof fn lemma_unsupported_ignores_outcome(offered: Seq<Seq<char>>, caps: Capabilities, a: bool, b: bool)
    ensures
        (classify_spec(a, offered, caps) == ResultStatus::Unsupported) == (classify_spec(b, offered, caps)
            == ResultStatus::Unsupported),
{
}

/// A cell is `passed` only when the handshake succeeded with something the adapter
/// advertises, and never `pending` or `disabled`.
pub proof fn lemma_classify_range(success: bool, offered: Seq<Seq<char>>, caps: Capabilities)
    ensures
        classify_spec(success, offered, caps) == ResultStatus::Passed ==> success && !none_known(offered, caps),
        classify_spec(success, offered, caps) != ResultStatus::Pending,
        classify_spec(success, offered, caps) != ResultStatus::Disabled,
{
}

} // verus!
