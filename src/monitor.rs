//! The stuck-packet sweep: uneffected rows older than the threshold, grouped by
//! (chain, source channel, destination channel).

use vstd::prelude::*;

use crate::text::str_eq;

verus! {

/// Rows older than this many seconds are stuck.
pub const STUCK_THRESHOLD_SECS: u64 = 900;

/// The sweep runs every this many seconds.
pub const MONITOR_TICK_SECS: u64 = 60;

/// An uneffected packet row, as the sweep reads it.
#[derive(Clone, Debug, PartialEq, Eq)]
pub struct PendingRow {
    pub chain: String,
    pub src_channel: String,
    pub dst_channel: String,
    pub has_sender: bool,
    pub age_secs: u64,
}

/// The stuck rows of one (chain, source channel, destination channel).
#[derive(Clone, Debug, PartialEq, Eq)]
pub struct StuckGroup {
    pub chain: String,
    pub src_channel: String,
    pub dst_channel: String,
    pub stuck: u64,
    pub with_user_data: u64,
    pub oldest_age: u64,
}

pub type GroupKey = (Seq<char>, Seq<char>, Seq<char>);

pub open spec fn is_stuck(r: PendingRow) -> bool {
    r.age_secs > STUCK_THRESHOLD_SECS
}

pub open spec fn row_key(r: PendingRow) -> GroupKey {
    (r.chain@, r.src_channel@, r.dst_channel@)
}

pub open spec fn group_key(g: StuckGroup) -> GroupKey {
    (g.chain@, g.src_channel@, g.dst_channel@)
}

/// The stuck rows with key `k`.
pub open spec fn stuck_count(rows: Seq<PendingRow>, k: GroupKey) -> nat
    decreases rows.len(),
{
    if rows.len() == 0 {
        0
    } else {
        stuck_count(rows.drop_last(), k) + if is_stuck(rows.last()) && row_key(rows.last()) == k { 1nat } else { 0nat }
    }
}

/// The stuck rows with key `k` that carry a sender.
pub open spec fn user_count(rows: Seq<PendingRow>, k: GroupKey) -> nat
    decreases rows.len(),
{
    if rows.len() == 0 {
        0
    } else {
        user_count(rows.drop_last(), k) + if is_stuck(rows.last()) && row_key(rows.last()) == k
            && rows.last().has_sender { 1nat } else { 0nat }
    }
}

/// The greatest age among the stuck rows with key `k` (0 when there are none).
pub open spec fn oldest(rows: Seq<PendingRow>, k: GroupKey) -> u64
    decreases rows.len(),
{
    if rows.len() == 0 {
        0
    } else {
        let before = oldest(rows.drop_last(), k);
        if is_stuck(rows.last()) && row_key(rows.last()) == k && rows.last().age_secs > before {
            rows.last().age_secs
        } else {
            before
        }
    }
}

/// `groups` describes the stuck rows of `rows` exactly: one group per key that has
/// stuck rows, with their count, how many carry a sender, and the oldest age.
pub open spec fn describes(groups: Seq<StuckGroup>, rows: Seq<PendingRow>) -> bool {
    &&& forall|j: int| 0 <= j < groups.len() ==> {
        let g = #[trigger] groups[j];
        &&& g.stuck as nat == stuck_count(rows, group_key(g))
        &&& g.with_user_data as nat == user_count(rows, group_key(g))
        &&& g.oldest_age == oldest(rows, group_key(g))
        &&& g.stuck > 0
    }
    &&& forall|a: int, b: int| 0 <= a < groups.len() && 0 <= b < groups.len() && a != b
        ==> group_key(#[trigger] groups[a]) != group_key(#[trigger] groups[b])
    &&& forall|i: int| 0 <= i < rows.len() && is_stuck(#[trigger] rows[i]) ==> exists|j: int|
        0 <= j < groups.len() && group_key(#[trigger] groups[j]) == row_key(rows[i])
}

impl StuckGroup {
    /// The stuck rows of the group that carry no sender.
    pub fn without_user_data(&self) -> (r: u64)
        requires
            self.with_user_data <= self.stuck,
        ensures
            r == self.stuck - self.with_user_data,
    {
        self.stuck - self.with_user_data
    }
}

proof fn lemma_user_le_stuck(rows: Seq<PendingRow>, k: GroupKey)
    ensures
        user_count(rows, k) <= stuck_count(rows, k),
        stuck_count(rows, k) <= rows.len(),
    decreases rows.len(),
{
    if rows.len() > 0 {
        lemma_user_le_stuck(rows.drop_last(), k);
    }
}

/// The position of the group with the row's key.
fn find_group(groups: &Vec<StuckGroup>, r: &PendingRow) -> (f: Option<usize>)
    ensures
        match f {
            Some(j) => j < groups@.len() && group_key(groups@[j as int]) == row_key(*r),
            None => forall|x: int| 0 <= x < groups@.len() ==> group_key(#[trigger] groups@[x]) != row_key(*r),
        },
{
    let mut j: usize = 0;
    while j < groups.len()
        invariant
            j <= groups@.len(),
            forall|x: int| 0 <= x < j ==> group_key(#[trigger] groups@[x]) != row_key(*r),
        decreases groups@.len() - j,
    {
        let g = &groups[j];
        if str_eq(g.chain.as_str(), r.chain.as_str()) && str_eq(g.src_channel.as_str(), r.src_channel.as_str())
            && str_eq(g.dst_channel.as_str(), r.dst_channel.as_str()) {
            return Some(j);
        }
        j += 1;
    }
    None
}

/// Groups the stuck rows of `rows`.
pub fn stuck_groups(rows: &Vec<PendingRow>) -> (r: Vec<StuckGroup>)
    ensures
        describes(r@, rows@),
        forall|j: int| 0 <= j < r@.len() ==> (#[trigger] r@[j]).with_user_data <= r@[j].stuck,
{
    let mut groups: Vec<StuckGroup> = Vec::new();
    let mut i: usize = 0;
    while i < rows.len()
        invariant
            i <= rows@.len(),
            describes(groups@, rows@.take(i as int)),
            forall|j: int| 0 <= j < groups@.len() ==> (#[trigger] groups@[j]).stuck <= i,
        decreases rows@.len() - i,
    {
        let ghost pre = rows@.take(i as int);
        let ghost post = rows@.take(i + 1);
        assert(post.drop_last() =~= pre);
        let r = &rows[i];
        assert(post.last() == *r);
        let ghost k = row_key(*r);
        if r.age_secs > STUCK_THRESHOLD_SECS {
            let found = find_group(&groups, r);
            let ghost old_groups = groups@;
            match found {
                Some(j) => {
                    let g = &groups[j];
                    proof {
                        lemma_user_le_stuck(pre, k);
                        assert(group_key(old_groups[j as int]) == k);
                    }
                    let updated = StuckGroup {
                        chain: g.chain.clone(),
                        src_channel: g.src_channel.clone(),
                        dst_channel: g.dst_channel.clone(),
                        stuck: g.stuck + 1,
                        with_user_data: if r.has_sender { g.with_user_data + 1 } else { g.with_user_data },
                        oldest_age: if r.age_secs > g.oldest_age { r.age_secs } else { g.oldest_age },
                    };
                    groups.set(j, updated);
                    assert forall|a: int| 0 <= a < groups@.len() implies {
                        let g = #[trigger] groups@[a];
                        &&& g.stuck as nat == stuck_count(post, group_key(g))
                        &&& g.with_user_data as nat == user_count(post, group_key(g))
                        &&& g.oldest_age == oldest(post, group_key(g))
                        &&& g.stuck > 0
                    } by {
                        if a != j {
                            assert(groups@[a] == old_groups[a]);
                        }
                    }
                    assert forall|x: int| 0 <= x < post.len() && is_stuck(#[trigger] post[x]) implies exists|y: int|
                        0 <= y < groups@.len() && group_key(#[trigger] groups@[y]) == row_key(post[x]) by {
                        if x < i {
                            assert(pre[x] == post[x]);
                            let y = choose|y: int| 0 <= y < old_groups.len() && group_key(#[trigger] old_groups[y]) == row_key(pre[x]);
                            assert(group_key(groups@[y]) == group_key(old_groups[y]));
                        } else {
                            assert(group_key(groups@[j as int]) == k);
                        }
                    }
                    assert forall|a: int, b: int| 0 <= a < groups@.len() && 0 <= b < groups@.len() && a != b
                        implies group_key(#[trigger] groups@[a]) != group_key(#[trigger] groups@[b]) by {
                        assert(group_key(groups@[a]) == group_key(old_groups[a]));
                        assert(group_key(groups@[b]) == group_key(old_groups[b]));
                    }
                },
                None => {
                    groups.push(StuckGroup {
                        chain: r.chain.clone(),
                        src_channel: r.src_channel.clone(),
                        dst_channel: r.dst_channel.clone(),
                        stuck: 1,
                        with_user_data: if r.has_sender { 1 } else { 0 },
                        oldest_age: r.age_secs,
                    });
                    assert forall|x: int| 0 <= x < pre.len() implies row_key(#[trigger] pre[x]) != k || !is_stuck(pre[x]) by {
                        if is_stuck(pre[x]) && row_key(pre[x]) == k {
                            let y = choose|y: int| 0 <= y < old_groups.len() && group_key(#[trigger] old_groups[y]) == row_key(pre[x]);
                            assert(group_key(old_groups[y]) != k);
                        }
                    }
                    proof {
                        lemma_absent_key_zero(pre, k);
                    }
                    assert forall|a: int| 0 <= a < groups@.len() implies {
                        let g = #[trigger] groups@[a];
                        &&& g.stuck as nat == stuck_count(post, group_key(g))
                        &&& g.with_user_data as nat == user_count(post, group_key(g))
                        &&& g.oldest_age == oldest(post, group_key(g))
                        &&& g.stuck > 0
                    } by {
                        if a < old_groups.len() {
                            assert(groups@[a] == old_groups[a]);
                        }
                    }
                    assert forall|x: int| 0 <= x < post.len() && is_stuck(#[trigger] post[x]) implies exists|y: int|
                        0 <= y < groups@.len() && group_key(#[trigger] groups@[y]) == row_key(post[x]) by {
                        if x < i {
                            assert(pre[x] == post[x]);
                            let y = choose|y: int| 0 <= y < old_groups.len() && group_key(#[trigger] old_groups[y]) == row_key(pre[x]);
                            assert(groups@[y] == old_groups[y]);
                        } else {
                            assert(group_key(groups@[old_groups.len() as int]) == k);
                        }
                    }
                    assert forall|a: int, b: int| 0 <= a < groups@.len() && 0 <= b < groups@.len() && a != b
                        implies group_key(#[trigger] groups@[a]) != group_key(#[trigger] groups@[b]) by {
                        if a < old_groups.len() {
                            assert(groups@[a] == old_groups[a]);
                        }
                        if b < old_groups.len() {
                            assert(groups@[b] == old_groups[b]);
                        }
                    }
                },
            }
        } else {
            assert forall|a: int| 0 <= a < groups@.len() implies {
                let g = #[trigger] groups@[a];
                &&& g.stuck as nat == stuck_count(post, group_key(g))
                &&& g.with_user_data as nat == user_count(post, group_key(g))
                &&& g.oldest_age == oldest(post, group_key(g))
                &&& g.stuck > 0
            } by {}
            assert forall|x: int| 0 <= x < post.len() && is_stuck(#[trigger] post[x]) implies exists|y: int|
                0 <= y < groups@.len() && group_key(#[trigger] groups@[y]) == row_key(post[x]) by {
                assert(pre[x] == post[x]);
            }
        }
        i += 1;
    }
    assert(rows@.take(rows@.len() as int) =~= rows@);
    assert forall|j: int| 0 <= j < groups@.len() implies (#[trigger] groups@[j]).with_user_data <= groups@[j].stuck by {
        lemma_user_le_stuck(rows@, group_key(groups@[j]));
    }
    groups
}

/// A key none of whose rows is stuck has no count, no users and age 0.
proof fn lemma_absent_key_zero(rows: Seq<PendingRow>, k: GroupKey)
    requires
        forall|x: int| 0 <= x < rows.len() ==> row_key(#[trigger] rows[x]) != k || !is_stuck(rows[x]),
    ensures
        stuck_count(rows, k) == 0,
        user_count(rows, k) == 0,
        oldest(rows, k) == 0,
    decreases rows.len(),
{
    if rows.len() > 0 {
        assert(forall|x: int| 0 <= x < rows.drop_last().len() ==> rows.drop_last()[x] == rows[x]);
        lemma_absent_key_zero(rows.drop_last(), k);
        assert(rows.last() == rows[rows.len() - 1]);
    }
}

} // verus!
