//! The store: transactions and packet rows with the semantics of the persisted
//! tables (autoincrement ids, unique keys, insert-or-ignore, one guarded update).

use vstd::prelude::*;

use crate::msg::Height;
use crate::text::str_eq;

verus! {

/// The marker type of a row derived from a `send_packet` event.
pub const SEND_PACKET: &'static str = "send_packet";

/// The marker type a `send_packet` row takes when its packet timed out.
pub const TIMEOUT_PACKET: &'static str = "timeout_packet";

/// A transaction as stored: unique by (chain, hash).
#[derive(Clone, Debug, PartialEq, Eq)]
pub struct TxRow {
    pub id: u64,
    pub chain: String,
    pub height: u64,
    pub hash: String,
    pub memo: String,
}

impl TxRow {
    /// A field-by-field copy.
    pub fn duplicate(&self) -> (r: TxRow)
        ensures
            r == *self,
    {
        TxRow {
            id: self.id,
            chain: self.chain.clone(),
            height: self.height,
            hash: self.hash.clone(),
            memo: self.memo.clone(),
        }
    }
}

fn copy_text(o: &Option<String>) -> (r: Option<String>)
    ensures
        r == *o,
{
    match o {
        Some(s) => Some(s.clone()),
        None => None,
    }
}

/// Two transaction rows hold the same values.
pub open spec fn same_tx(a: TxRow, b: TxRow) -> bool {
    a.id == b.id && a.chain@ == b.chain@ && a.height == b.height && a.hash@ == b.hash@ && a.memo@ == b.memo@
}

/// One observed message (or event) about a packet on one chain.
#[derive(Clone, Debug, PartialEq, Eq)]
pub struct PacketRow {
    pub id: u64,
    pub tx_id: u64,
    pub sequence: u64,
    pub src_channel: String,
    pub src_port: String,
    pub dst_channel: String,
    pub dst_port: String,
    pub msg_type_url: String,
    pub signer: String,
    pub effected: bool,
    pub effected_signer: Option<String>,
    pub effected_tx: Option<u64>,
    pub sender: Option<String>,
    pub receiver: Option<String>,
    pub denom: Option<String>,
    pub amount: Option<String>,
    pub ibc_version: Option<String>,
    pub timeout_timestamp: Option<u64>,
    pub timeout_height: Option<Height>,
    pub data_hash: Option<String>,
}

/// A row of the event table, kept for later use.
#[derive(Clone, Debug, PartialEq, Eq)]
pub struct EventRow {
    pub id: u64,
    pub tx_id: u64,
    pub event_type: String,
    pub event_index: u64,
}

/// A row of the event attribute table, kept for later use.
#[derive(Clone, Debug, PartialEq, Eq)]
pub struct EventAttributeRow {
    pub id: u64,
    pub event_id: u64,
    pub key: String,
    pub value: String,
    pub attribute_index: u64,
}

/// (source channel, source port, destination channel, destination port, sequence, type).
pub type PacketKey = (Seq<char>, Seq<char>, Seq<char>, Seq<char>, u64, Seq<char>);

impl PacketRow {
    pub open spec fn key(self) -> PacketKey {
        (self.src_channel@, self.src_port@, self.dst_channel@, self.dst_port@, self.sequence,
            self.msg_type_url@)
    }

    /// Whether this row has the given key.
    pub fn has_key(
        &self,
        src_channel: &str,
        src_port: &str,
        dst_channel: &str,
        dst_port: &str,
        sequence: u64,
        type_url: &str,
    ) -> (r: bool)
        ensures
            r == (self.key() == (src_channel@, src_port@, dst_channel@, dst_port@, sequence,
                type_url@)),
    {
        self.sequence == sequence && str_eq(self.src_channel.as_str(), src_channel) && str_eq(
            self.src_port.as_str(),
            src_port,
        ) && str_eq(self.dst_channel.as_str(), dst_channel) && str_eq(
            self.dst_port.as_str(),
            dst_port,
        ) && str_eq(self.msg_type_url.as_str(), type_url)
    }
}

/// The two tables.
#[derive(Clone, Debug, PartialEq, Eq)]
pub struct Store {
    pub txs: Vec<TxRow>,
    pub packets: Vec<PacketRow>,
}

/// The key a `send_packet` row takes when its packet is settled.
pub open spec fn settled_key(p: PacketRow, timed_out: bool) -> PacketKey {
    (p.src_channel@, p.src_port@, p.dst_channel@, p.dst_port@, p.sequence, if timed_out {
        TIMEOUT_PACKET@
    } else {
        SEND_PACKET@
    })
}

/// `after` is `before` settled by transaction `tx_id`: effected, pointing at that
/// transaction, renamed to `timeout_packet` on a timeout, otherwise unchanged.
pub open spec fn is_settled(before: PacketRow, after: PacketRow, tx_id: u64, timed_out: bool) -> bool {
    &&& after == (PacketRow {
        effected: true,
        effected_tx: Some(tx_id),
        msg_type_url: after.msg_type_url,
        ..before
    })
    &&& after.key() == settled_key(before, timed_out)
}

impl Store {
    pub open spec fn tx_exists(self, id: u64) -> bool {
        1 <= id <= self.txs@.len()
    }

    /// The chain of the transaction with id `id`.
    pub open spec fn chain_of_tx(self, id: u64) -> Seq<char> {
        self.txs@[id - 1].chain@
    }

    /// The chain a packet row was observed on.
    pub open spec fn row_chain(self, i: int) -> Seq<char> {
        self.chain_of_tx(self.packets@[i].tx_id)
    }

    pub open spec fn has_tx(self, chain: Seq<char>, hash: Seq<char>) -> bool {
        exists|i: int| 0 <= i < self.txs@.len() && self.txs@[i].chain@ == chain && #[trigger] self.txs@[i].hash@ == hash
    }

    /// Some row with key `k` was observed on `chain`.
    pub open spec fn has_key_on(self, chain: Seq<char>, k: PacketKey) -> bool {
        exists|i: int| 0 <= i < self.packets@.len() && self.row_chain(i) == chain && #[trigger] self.packets@[i].key() == k
    }

    /// Some effected row with key `k` was observed on `chain`.
    pub open spec fn has_effected_on(self, chain: Seq<char>, k: PacketKey) -> bool {
        exists|i: int|
            0 <= i < self.packets@.len() && self.packets@[i].effected && self.row_chain(i) == chain
                && #[trigger] self.packets@[i].key() == k
    }

    /// Ids are positions, and the rows' references stay inside the tables.
    pub open spec fn ids_ok(self) -> bool {
        &&& forall|i: int| 0 <= i < self.txs@.len() ==> #[trigger] self.txs@[i].id == i + 1
        &&& forall|i: int| 0 <= i < self.packets@.len() ==> #[trigger] self.packets@[i].id == i + 1
        &&& forall|i: int| 0 <= i < self.packets@.len() ==> self.tx_exists(#[trigger] self.packets@[i].tx_id)
    }

    /// (chain, hash) never repeats among transactions.
    pub open spec fn txs_unique(self) -> bool {
        forall|i: int, j: int|
            0 <= i < self.txs@.len() && 0 <= j < self.txs@.len() && i != j ==> !(
            #[trigger] self.txs@[i].chain@ == #[trigger] self.txs@[j].chain@ && self.txs@[i].hash@
                == self.txs@[j].hash@)
    }

    /// `effected_tx` names a transaction of the row's own chain.
    pub open spec fn winners_on_chain(self) -> bool {
        forall|i: int|
            0 <= i < self.packets@.len() ==> match #[trigger] self.packets@[i].effected_tx {
                Some(t) => self.tx_exists(t) && self.chain_of_tx(t) == self.row_chain(i),
                None => true,
            }
    }

    /// At most one effected row per key and chain.
    pub open spec fn single_effected(self) -> bool {
        forall|i: int, j: int|
            0 <= i < self.packets@.len() && 0 <= j < self.packets@.len() && i != j
                && #[trigger] self.packets@[i].effected && #[trigger] self.packets@[j].effected
                && self.row_chain(i) == self.row_chain(j) ==> self.packets@[i].key()
                != self.packets@[j].key()
    }

    pub open spec fn wf(self) -> bool {
        &&& self.ids_ok()
        &&& self.txs_unique()
        &&& self.winners_on_chain()
        &&& self.single_effected()
    }

    /// An empty store.
    pub fn new() -> (r: Store)
        ensures
            r.wf(),
            r.txs@.len() == 0,
            r.packets@.len() == 0,
    {
        Store { txs: Vec::new(), packets: Vec::new() }
    }

    /// Some row of transaction `tx_id` has key `k`.
    pub open spec fn has_row_in_tx(self, tx_id: u64, k: PacketKey) -> bool {
        exists|i: int|
            0 <= i < self.packets@.len() && self.packets@[i].tx_id == tx_id
                && #[trigger] self.packets@[i].key() == k
    }

    /// Whether row `i` was observed on `chain`.
    fn row_on_chain(&self, i: usize, chain: &str) -> (r: bool)
        requires
            self.wf(),
            i < self.packets@.len(),
        ensures
            r == (self.row_chain(i as int) == chain@),
    {
        let t = self.packets[i].tx_id;
        assert(self.tx_exists(self.packets@[i as int].tx_id));
        let n = self.txs.len();
        assert(t - 1 < n);
        let c = &self.txs[(t - 1) as usize].chain;
        assert(c@ == self.row_chain(i as int));
        str_eq(c.as_str(), chain)
    }

    /// The first row observed on `chain` with the given key; with `effected_only`,
    /// the first such effected row.
    pub fn find_packet(
        &self,
        chain: &str,
        src_channel: &str,
        src_port: &str,
        dst_channel: &str,
        dst_port: &str,
        sequence: u64,
        type_url: &str,
        effected_only: bool,
    ) -> (r: Option<usize>)
        requires
            self.wf(),
        ensures
            ({
                let k: PacketKey = (src_channel@, src_port@, dst_channel@, dst_port@, sequence, type_url@);
                match r {
                    Some(i) => {
                        &&& i < self.packets@.len()
                        &&& self.row_chain(i as int) == chain@
                        &&& self.packets@[i as int].key() == k
                        &&& (effected_only ==> self.packets@[i as int].effected)
                        &&& forall|j: int| 0 <= j < i ==> !(self.row_chain(j) == chain@
                            && #[trigger] self.packets@[j].key() == k && (effected_only
                            ==> self.packets@[j].effected))
                    },
                    None => if effected_only {
                        !self.has_effected_on(chain@, k)
                    } else {
                        !self.has_key_on(chain@, k)
                    },
                }
            }),
    {
        let ghost k: PacketKey = (src_channel@, src_port@, dst_channel@, dst_port@, sequence, type_url@);
        let mut i: usize = 0;
        while i < self.packets.len()
            invariant
                self.wf(),
                k == (src_channel@, src_port@, dst_channel@, dst_port@, sequence, type_url@),
                i <= self.packets@.len(),
                forall|j: int| 0 <= j < i ==> !(self.row_chain(j) == chain@
                    && #[trigger] self.packets@[j].key() == k && (effected_only
                    ==> self.packets@[j].effected)),
            decreases self.packets@.len() - i,
        {
            let p = &self.packets[i];
            let wanted = !effected_only || p.effected;
            assert(*p == self.packets@[i as int]);
            let same_key = p.has_key(src_channel, src_port, dst_channel, dst_port, sequence, type_url);
            assert(same_key == (p.key() == (src_channel@, src_port@, dst_channel@, dst_port@, sequence, type_url@)));
            let on_chain = self.row_on_chain(i, chain);
            assert(same_key == (self.packets@[i as int].key() == k));
            assert(on_chain == (self.row_chain(i as int) == chain@));
            let hit = wanted && same_key && on_chain;
            if hit {
                return Some(i);
            }
            i += 1;
        }
        None
    }

    fn has_row_in_tx_exec(&self, row: &PacketRow) -> (r: bool)
        ensures
            r == self.has_row_in_tx(row.tx_id, row.key()),
    {
        let mut j: usize = 0;
        while j < self.packets.len()
            invariant
                j <= self.packets@.len(),
                forall|x: int| 0 <= x < j ==> !(self.packets@[x].tx_id == row.tx_id
                    && #[trigger] self.packets@[x].key() == row.key()),
            decreases self.packets@.len() - j,
        {
            let p = &self.packets[j];
            if p.tx_id == row.tx_id && p.has_key(
                row.src_channel.as_str(),
                row.src_port.as_str(),
                row.dst_channel.as_str(),
                row.dst_port.as_str(),
                row.sequence,
                row.msg_type_url.as_str(),
            ) {
                return true;
            }
            j += 1;
        }
        false
    }

    /// Insert-or-ignore of a packet row: ignored when its transaction already has a
    /// row with the same key. The stored row takes the next id. Returns whether it
    /// was stored (`false` also when no id is left).
    pub fn insert_packet(&mut self, row: PacketRow) -> (r: bool)
        requires
            old(self).wf(),
            old(self).tx_exists(row.tx_id),
            row.effected_tx matches Some(t) ==> old(self).tx_exists(t) && old(self).chain_of_tx(t)
                == old(self).chain_of_tx(row.tx_id),
            row.effected ==> !old(self).has_effected_on(old(self).chain_of_tx(row.tx_id), row.key()),
        ensures
            final(self).wf(),
            final(self).txs == old(self).txs,
            old(self).has_row_in_tx(row.tx_id, row.key()) ==> !r,
            !r ==> *final(self) == *old(self),
            r ==> final(self).packets@ == old(self).packets@.push(
                (PacketRow { id: (old(self).packets@.len() + 1) as u64, ..row }),
            ),
            !old(self).has_row_in_tx(row.tx_id, row.key()) && old(self).packets@.len() < u64::MAX ==> r,
    {
        if self.has_row_in_tx_exec(&row) {
            return false;
        }
        let n = self.packets.len() as u64;
        if n >= u64::MAX {
            return false;
        }
        let ghost before = *self;
        let stored = PacketRow { id: n + 1, ..row };
        self.packets.push(stored);
        assert(self.packets@[n as int] == stored);
        assert(forall|i: int| 0 <= i < n ==> self.packets@[i] == before.packets@[i]);
        assert(self.row_chain(n as int) == before.chain_of_tx(row.tx_id));
        assert forall|i: int, x: int|
            0 <= i < self.packets@.len() && 0 <= x < self.packets@.len() && i != x
                && #[trigger] self.packets@[i].effected && #[trigger] self.packets@[x].effected
                && self.row_chain(i) == self.row_chain(x) implies self.packets@[i].key()
                != self.packets@[x].key() by {
            if i == n {
                assert(before.packets@[x].effected && before.row_chain(x) == self.row_chain(x));
            } else if x == n {
                assert(before.packets@[i].effected && before.row_chain(i) == self.row_chain(i));
            }
        }
        true
    }

    /// Row `i` is an unsettled `send_packet` row on `chain` for this packet.
    pub open spec fn awaiting(self, i: int, chain: Seq<char>, sequence: u64, src: Seq<char>, dst: Seq<char>) -> bool {
        let p = self.packets@[i];
        &&& p.msg_type_url@ == SEND_PACKET@
        &&& !p.effected
        &&& p.sequence == sequence
        &&& p.src_channel@ == src
        &&& p.dst_channel@ == dst
        &&& self.row_chain(i) == chain
    }

    /// The single update of the store: every unsettled `send_packet` row for this
    /// (sequence, source channel, destination channel) on the chain of transaction
    /// `tx_id` becomes effected by it (and `timeout_packet` when `timed_out`), except
    /// where an effected row already holds the key it would take.
    pub fn settle_sent(&mut self, tx_id: u64, sequence: u64, src_channel: &str, dst_channel: &str, timed_out: bool)
        requires
            old(self).wf(),
            old(self).tx_exists(tx_id),
        ensures
            final(self).wf(),
            final(self).txs == old(self).txs,
            final(self).packets@.len() == old(self).packets@.len(),
            forall|i: int|
                0 <= i < old(self).packets@.len() ==> #[trigger] final(self).packets@[i] == old(self).packets@[i]
                    || (old(self).awaiting(i, old(self).chain_of_tx(tx_id), sequence, src_channel@, dst_channel@)
                    && is_settled(old(self).packets@[i], final(self).packets@[i], tx_id, timed_out)),
            forall|i: int|
                0 <= i < old(self).packets@.len() && old(self).awaiting(i, old(self).chain_of_tx(tx_id), sequence, src_channel@, dst_channel@)
                    && #[trigger] final(self).packets@[i] == old(self).packets@[i]
                    ==> final(self).has_effected_on(old(self).chain_of_tx(tx_id), settled_key(old(self).packets@[i], timed_out)),
    {
        let ghost start = *self;
        let n = self.txs.len();
        assert(tx_id - 1 < n);
        let chain = self.txs[(tx_id - 1) as usize].chain.clone();
        let target: &str = if timed_out { TIMEOUT_PACKET } else { SEND_PACKET };
        let mut i: usize = 0;
        while i < self.packets.len()
            invariant
                self.wf(),
                self.txs == start.txs,
                chain@ == start.chain_of_tx(tx_id),
                start.tx_exists(tx_id),
                target@ == (if timed_out { TIMEOUT_PACKET@ } else { SEND_PACKET@ }),
                self.packets@.len() == start.packets@.len(),
                i <= self.packets@.len(),
                forall|j: int| i <= j < self.packets@.len() ==> #[trigger] self.packets@[j] == start.packets@[j],
                forall|j: int| 0 <= j < self.packets@.len() && start.packets@[j].effected
                    ==> #[trigger] self.packets@[j] == start.packets@[j],
                forall|j: int|
                    0 <= j < i ==> #[trigger] self.packets@[j] == start.packets@[j]
                        || (start.awaiting(j, start.chain_of_tx(tx_id), sequence, src_channel@, dst_channel@)
                        && is_settled(start.packets@[j], self.packets@[j], tx_id, timed_out)),
                forall|j: int|
                    0 <= j < i && start.awaiting(j, start.chain_of_tx(tx_id), sequence, src_channel@, dst_channel@)
                        && #[trigger] self.packets@[j] == start.packets@[j]
                        ==> self.has_effected_on(start.chain_of_tx(tx_id), settled_key(start.packets@[j], timed_out)),
            decreases self.packets@.len() - i,
        {
            let ghost before = *self;
            let p = &self.packets[i];
            let candidate = !p.effected && p.sequence == sequence && str_eq(p.msg_type_url.as_str(), SEND_PACKET)
                && str_eq(p.src_channel.as_str(), src_channel) && str_eq(p.dst_channel.as_str(), dst_channel)
                && self.row_on_chain(i, chain.as_str());
            if candidate {
                let blocker = self.find_packet(
                    chain.as_str(),
                    p.src_channel.as_str(),
                    p.src_port.as_str(),
                    p.dst_channel.as_str(),
                    p.dst_port.as_str(),
                    p.sequence,
                    target,
                    true,
                );
                match blocker {
                    Some(b) => {
                        assert(self.packets@[b as int].key() == settled_key(start.packets@[i as int], timed_out));
                    },
                    None => {
                        let mut row = PacketRow {
                            id: 0,
                            tx_id: 0,
                            sequence: 0,
                            src_channel: String::new(),
                            src_port: String::new(),
                            dst_channel: String::new(),
                            dst_port: String::new(),
                            msg_type_url: String::new(),
                            signer: String::new(),
                            effected: false,
                            effected_signer: None,
                            effected_tx: None,
                            sender: None,
                            receiver: None,
                            denom: None,
                            amount: None,
                            ibc_version: None,
                            timeout_timestamp: None,
                            timeout_height: None,
                            data_hash: None,
                        };
                        self.packets.set_and_swap(i, &mut row);
                        row.effected = true;
                        row.effected_tx = Some(tx_id);
                        row.msg_type_url = target.to_string();
                        self.packets.set(i, row);
                        assert(is_settled(start.packets@[i as int], self.packets@[i as int], tx_id, timed_out));
                        assert(forall|j: int| 0 <= j < self.packets@.len() && j != i ==> self.packets@[j] == before.packets@[j]);
                        assert(forall|j: int| 0 <= j < self.packets@.len() ==> self.row_chain(j) == before.row_chain(j));
                        assert forall|a: int, b: int|
                            0 <= a < self.packets@.len() && 0 <= b < self.packets@.len() && a != b
                                && #[trigger] self.packets@[a].effected && #[trigger] self.packets@[b].effected
                                && self.row_chain(a) == self.row_chain(b) implies self.packets@[a].key()
                                != self.packets@[b].key() by {
                            if a == i {
                                assert(before.packets@[b].effected);
                            } else if b == i {
                                assert(before.packets@[a].effected);
                            }
                        }
                        assert forall|j: int|
                            0 <= j < i && start.awaiting(j, start.chain_of_tx(tx_id), sequence, src_channel@, dst_channel@)
                                && #[trigger] self.packets@[j] == start.packets@[j]
                                implies self.has_effected_on(start.chain_of_tx(tx_id), settled_key(start.packets@[j], timed_out)) by {
                            assert(before.packets@[j] == start.packets@[j]);
                            assert(before.has_effected_on(start.chain_of_tx(tx_id), settled_key(start.packets@[j], timed_out)));
                            let w = choose|w: int|
                                0 <= w < before.packets@.len() && before.packets@[w].effected && before.row_chain(w) == start.chain_of_tx(tx_id)
                                    && #[trigger] before.packets@[w].key() == settled_key(start.packets@[j], timed_out);
                            assert(w != i);
                            assert(self.packets@[w] == before.packets@[w]);
                        }
                    },
                }
            }
            i += 1;
        }
    }

    /// Rebuilds a store from stored rows, in id order. `None` when the rows break the
    /// store's invariants: ids not counting up from 1, a repeated (chain, hash), a row
    /// naming a missing or foreign transaction, or a second effected row for a key.
    pub fn restore(txs: Vec<TxRow>, packets: Vec<PacketRow>) -> (r: Option<Store>)
        ensures
            r matches Some(s) ==> {
                &&& s.wf()
                &&& s.txs@.len() == txs@.len()
                &&& forall|i: int| 0 <= i < txs@.len() ==> same_tx(#[trigger] s.txs@[i], txs@[i])
                &&& s.packets@ == packets@
            },
    {
        let mut s = Store::new();
        let mut i: usize = 0;
        while i < txs.len()
            invariant
                s.wf(),
                i <= txs@.len(),
                s.txs@.len() == i,
                s.packets@.len() == 0,
                forall|k: int| 0 <= k < i ==> same_tx(#[trigger] s.txs@[k], txs@[k]),
            decreases txs@.len() - i,
        {
            let t = &txs[i];
            if s.find_tx(t.chain.as_str(), t.hash.as_str()).is_some() {
                return None;
            }
            match s.insert_tx(t.chain.as_str(), t.height, t.hash.as_str(), t.memo.as_str()) {
                Some(stored) => {
                    if stored.id != t.id {
                        return None;
                    }
                },
                None => return None,
            }
            i += 1;
        }
        let mut j: usize = 0;
        while j < packets.len()
            invariant
                s.wf(),
                j <= packets@.len(),
                s.txs@.len() == txs@.len(),
                s.packets@.len() == j,
                forall|k: int| 0 <= k < txs@.len() ==> same_tx(#[trigger] s.txs@[k], txs@[k]),
                forall|k: int| 0 <= k < j ==> #[trigger] s.packets@[k] == packets@[k],
            decreases packets@.len() - j,
        {
            let p = &packets[j];
            let n = s.txs.len() as u64;
            if p.tx_id < 1 || p.tx_id > n {
                return None;
            }
            let chain = s.txs[(p.tx_id - 1) as usize].chain.clone();
            match p.effected_tx {
                Some(t) => {
                    if t < 1 || t > n || !str_eq(s.txs[(t - 1) as usize].chain.as_str(), chain.as_str()) {
                        return None;
                    }
                },
                None => {},
            }
            if p.effected && s.find_packet(
                chain.as_str(),
                p.src_channel.as_str(),
                p.src_port.as_str(),
                p.dst_channel.as_str(),
                p.dst_port.as_str(),
                p.sequence,
                p.msg_type_url.as_str(),
                true,
            ).is_some() {
                return None;
            }
            let expected = (j as u64) + 1;
            if p.id != expected {
                return None;
            }
            let row = PacketRow {
                id: p.id,
                tx_id: p.tx_id,
                sequence: p.sequence,
                src_channel: p.src_channel.clone(),
                src_port: p.src_port.clone(),
                dst_channel: p.dst_channel.clone(),
                dst_port: p.dst_port.clone(),
                msg_type_url: p.msg_type_url.clone(),
                signer: p.signer.clone(),
                effected: p.effected,
                effected_signer: copy_text(&p.effected_signer),
                effected_tx: p.effected_tx,
                sender: copy_text(&p.sender),
                receiver: copy_text(&p.receiver),
                denom: copy_text(&p.denom),
                amount: copy_text(&p.amount),
                ibc_version: copy_text(&p.ibc_version),
                timeout_timestamp: p.timeout_timestamp,
                timeout_height: p.timeout_height,
                data_hash: copy_text(&p.data_hash),
            };
            assert((PacketRow { id: (j + 1) as u64, ..row }) == packets@[j as int]);
            let ghost before = s;
            if !s.insert_packet(row) {
                return None;
            }
            assert(forall|k: int| 0 <= k < j ==> s.packets@[k] == before.packets@[k]);
            j += 1;
        }
        assert(s.packets@ =~= packets@);
        Some(s)
    }

    /// The position of the transaction with this chain and hash.
    pub fn find_tx(&self, chain: &str, hash: &str) -> (r: Option<usize>)
        ensures
            match r {
                Some(i) => i < self.txs@.len() && self.txs@[i as int].chain@ == chain@
                    && self.txs@[i as int].hash@ == hash@,
                None => !self.has_tx(chain@, hash@),
            },
    {
        let mut i: usize = 0;
        while i < self.txs.len()
            invariant
                i <= self.txs@.len(),
                forall|j: int| 0 <= j < i ==> !(self.txs@[j].chain@ == chain@ && self.txs@[j].hash@ == hash@),
            decreases self.txs@.len() - i,
        {
            let t = &self.txs[i];
            if str_eq(t.chain.as_str(), chain) && str_eq(t.hash.as_str(), hash) {
                return Some(i);
            }
            i += 1;
        }
        None
    }

    /// Insert-or-ignore on (chain, hash), then the row stored under that pair.
    /// `None` only when the table has no id left.
    pub fn insert_tx(&mut self, chain: &str, height: u64, hash: &str, memo: &str) -> (r: Option<TxRow>)
        requires
            old(self).wf(),
        ensures
            final(self).wf(),
            final(self).packets == old(self).packets,
            old(self).has_tx(chain@, hash@) ==> *final(self) == *old(self) && r is Some,
            r matches Some(t) ==> {
                &&& final(self).tx_exists(t.id)
                &&& final(self).txs@[t.id - 1] == t
                &&& t.chain@ == chain@
                &&& t.hash@ == hash@
            },
            !old(self).has_tx(chain@, hash@) && r is Some ==> {
                &&& final(self).txs@ == old(self).txs@.push(r->Some_0)
                &&& r->Some_0.height == height
                &&& r->Some_0.memo@ == memo@
            },
            !old(self).has_tx(chain@, hash@) && r is None ==> *final(self) == *old(self)
                && old(self).txs@.len() >= u64::MAX,
    {
        match self.find_tx(chain, hash) {
            Some(i) => Some(self.txs[i].duplicate()),
            None => {
                let n = self.txs.len() as u64;
                if n >= u64::MAX {
                    return None;
                }
                let row = TxRow {
                    id: n + 1,
                    chain: chain.to_string(),
                    height,
                    hash: hash.to_string(),
                    memo: memo.to_string(),
                };
                let ghost before = *self;
                self.txs.push(row.duplicate());
                assert(self.txs@[n as int] == row);
                assert forall|i: int| 0 <= i < self.packets@.len() implies (match #[trigger] self.packets@[i].effected_tx {
                    Some(t) => self.tx_exists(t) && self.chain_of_tx(t) == self.row_chain(i),
                    None => true,
                }) by {
                    assert(before.tx_exists(self.packets@[i].tx_id));
                }
                assert forall|i: int, j: int|
                    0 <= i < self.packets@.len() && 0 <= j < self.packets@.len() && i != j
                        && #[trigger] self.packets@[i].effected && #[trigger] self.packets@[j].effected
                        && self.row_chain(i) == self.row_chain(j) implies self.packets@[i].key()
                        != self.packets@[j].key() by {
                    assert(before.tx_exists(self.packets@[i].tx_id));
                    assert(before.tx_exists(self.packets@[j].tx_id));
                    assert(before.row_chain(i) == self.row_chain(i));
                    assert(before.row_chain(j) == self.row_chain(j));
                }
                Some(row)
            },
        }
    }
}

/// In a well-formed store, at most one row per (chain, key) is effected: two effected
/// rows of one chain with one key are the same row.
pub proof fn lemma_one_effected_per_key(s: Store, i: int, j: int)
    requires
        s.wf(),
        0 <= i < s.packets@.len(),
        0 <= j < s.packets@.len(),
        s.packets@[i].effected,
        s.packets@[j].effected,
        s.row_chain(i) == s.row_chain(j),
        s.packets@[i].key() == s.packets@[j].key(),
    ensures
        i == j,
{
}

/// In a well-formed store, (chain, hash) identifies at most one transaction.
pub proof fn lemma_tx_unique(s: Store, i: int, j: int)
    requires
        s.wf(),
        0 <= i < s.txs@.len(),
        0 <= j < s.txs@.len(),
        s.txs@[i].chain@ == s.txs@[j].chain@,
        s.txs@[i].hash@ == s.txs@[j].hash@,
    ensures
        i == j,
{
}

/// In a well-formed store, a row's `effected_tx` is null or names a stored
/// transaction of the row's own chain.
pub proof fn lemma_winner_same_chain(s: Store, i: int)
    requires
        s.wf(),
        0 <= i < s.packets@.len(),
    ensures
        s.packets@[i].effected_tx matches Some(t) ==> s.tx_exists(t) && s.txs@[t - 1].chain@ == s.row_chain(i),
{
}

} // verus!
