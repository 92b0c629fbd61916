use vstd::prelude::*;
use crate::MsgView;
use crate::ProcessingResult;

verus! {

/// The lifecycle state of one task, as kept in the registry.
///
/// A record is created `Pending`, may pass through `InProgress`, and ends in
/// exactly one of the terminal states `Success` or `Failure`. A terminal
/// record never changes again.
#[derive(Clone, Debug, PartialEq)]
pub enum Status {
    Pending,
    InProgress(Option<Vec<u8>>),
    Success(String),
    Failure(String),
}

/// The mathematical value of a `Status`.
#[verifier::ext_equal]
pub enum StatusView {
    Pending,
    InProgress(Option<Seq<u8>>),
    Success(Seq<char>),
    Failure(Seq<char>),
}

impl View for Status {
    type V = StatusView;

    open spec fn view(&self) -> StatusView {
        match self {
            Status::Pending => StatusView::Pending,
            Status::InProgress(p) => StatusView::InProgress(
                match p {
                    Some(b) => Some(b@),
                    None => None,
                },
            ),
            Status::Success(t) => StatusView::Success(t@),
            Status::Failure(t) => StatusView::Failure(t@),
        }
    }
}

/// Position of a status along the forward-only lifecycle.
pub open spec fn status_rank(s: StatusView) -> int {
    match s {
        StatusView::Pending => 0,
        StatusView::InProgress(_) => 1,
        StatusView::Success(_) => 2,
        StatusView::Failure(_) => 2,
    }
}

/// A terminal status admits no further transition.
pub open spec fn is_terminal(s: StatusView) -> bool {
    status_rank(s) == 2
}

/// The transitions the registry accepts: strictly forward along the
/// lifecycle. In particular a terminal status never changes, `Success` and
/// `Failure` never turn into each other, and `InProgress` may be skipped.
pub open spec fn transition_allowed(from: StatusView, to: StatusView) -> bool {
    status_rank(from) < status_rank(to)
}

/// The sequence of statuses a task has been observed in, oldest first, is
/// valid when it starts at `Pending` and each step is an accepted transition.
pub open spec fn valid_history(h: Seq<StatusView>) -> bool {
    &&& h.len() > 0 ==> h[0] is Pending
    &&& forall|i: int| 0 <= i < h.len() - 1 ==> transition_allowed(#[trigger] h[i], h[i + 1])
}

/// The status a worker reply assigns to the matching task record.
pub open spec fn msg_to_status_view(m: MsgView) -> StatusView {
    match m {
        MsgView::InProgress(p) => StatusView::InProgress(p),
        MsgView::Success(t) => StatusView::Success(t),
        MsgView::Failure(t) => StatusView::Failure(t),
    }
}

/// Turn a wire message into the registry status it stands for.
pub fn msg_to_status(m: ProcessingResult) -> (r: Status)
    ensures
        r@ == msg_to_status_view(m@),
{
    match m {
        ProcessingResult::InProgress(p) => Status::InProgress(p),
        ProcessingResult::Success(t) => Status::Success(t),
        ProcessingResult::Failure(t) => Status::Failure(t),
    }
}

/// Whether the registry accepts replacing `cur` by `new_status`.
pub fn transition_allowed_exec(cur: &Status, new_status: &Status) -> (b: bool)
    ensures
        b == transition_allowed(cur@, new_status@),
{
    let cur_rank: u8 = match cur {
        Status::Pending => 0,
        Status::InProgress(_) => 1,
        Status::Success(_) => 2,
        Status::Failure(_) => 2,
    };
    let new_rank: u8 = match new_status {
        Status::Pending => 0,
        Status::InProgress(_) => 1,
        Status::Success(_) => 2,
        Status::Failure(_) => 2,
    };
    cur_rank < new_rank
}

/// Every valid observation history follows the canonical lifecycle: it begins
/// at `Pending`, visits each stage at most once in order, only its last entry
/// can be terminal, and it never contains both `Success` and `Failure`.
pub proof fn lemma_history_canonical(h: Seq<StatusView>)
    requires
        valid_history(h),
    ensures
        h.len() <= 3,
        h.len() > 0 ==> h[0] is Pending,
        forall|i: int, j: int| 0 <= i < j < h.len() ==> status_rank(#[trigger] h[i]) < status_rank(#[trigger] h[j]),
        forall|i: int| 0 <= i < h.len() - 1 ==> !is_terminal(#[trigger] h[i]),
        !(exists|i: int, j: int|
            0 <= i < h.len() && 0 <= j < h.len() && h[i] is Success && h[j] is Failure),
{
    assert forall|i: int, j: int| 0 <= i < j < h.len() implies status_rank(#[trigger] h[i])
        < status_rank(#[trigger] h[j]) by {
        lemma_rank_increases(h, i, j);
    }
    if h.len() > 3 {
        assert(status_rank(h[0]) < status_rank(h[1]) < status_rank(h[2]) < status_rank(h[3]));
        assert(status_rank(h[0]) >= 0 && status_rank(h[3]) <= 2);
    }
    if exists|i: int, j: int|
        0 <= i < h.len() && 0 <= j < h.len() && h[i] is Success && h[j] is Failure {
        let (i, j) = choose|i: int, j: int|
            0 <= i < h.len() && 0 <= j < h.len() && h[i] is Success && h[j] is Failure;
        if i < j {
            lemma_rank_increases(h, i, j);
        } else if j < i {
            lemma_rank_increases(h, j, i);
        }
    }
}

/// Ranks grow strictly along a valid history.
proof fn lemma_rank_increases(h: Seq<StatusView>, i: int, j: int)
    requires
        valid_history(h),
        0 <= i < j < h.len(),
    ensures
        status_rank(h[i]) < status_rank(h[j]),
    decreases j - i,
{
    if i + 1 < j {
        lemma_rank_increases(h, i + 1, j);
    }
}

/// Extending a valid history by an accepted transition keeps it valid.
pub proof fn lemma_history_extend(h: Seq<StatusView>, s: StatusView)
    requires
        valid_history(h),
        h.len() > 0,
        transition_allowed(h.last(), s),
    ensures
        valid_history(h.push(s)),
{
    let h2 = h.push(s);
    assert forall|i: int| 0 <= i < h2.len() - 1 implies transition_allowed(
        #[trigger] h2[i],
        h2[i + 1],
    ) by {
        if i < h.len() - 1 {
            assert(transition_allowed(h[i], h[i + 1]));
        }
    }
}

} // verus!
