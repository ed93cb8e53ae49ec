//! Per-element last-write-wins message store with age-based pruning and
//! range snapshots for pull-style reads.

use vstd::prelude::*;

use crate::clock::wrapped_apart;
use crate::codec;
use crate::codec::{parse, wire_enc};
use crate::msg::LedMsg;

verus! {

/// Messages older (in signed wrapped age) than this many time units are
/// pruned; the same bound "into the future" is tolerated as clock skew.
pub open spec fn prune_bound() -> u32 {
    5_000_000
}

/// The messages present in a run of slots, in slot order.
pub open spec fn present(s: Seq<Option<LedMsg>>) -> Seq<LedMsg>
    decreases s.len(),
{
    if s.len() == 0 {
        Seq::empty()
    } else {
        (match s[0] {
            Option::Some(m) => seq![m],
            Option::None => Seq::empty(),
        }) + present(s.drop_first())
    }
}

pub proof fn lemma_present_push(s: Seq<Option<LedMsg>>, o: Option<LedMsg>)
    ensures
        present(s.push(o)) == present(s) + (match o {
            Option::Some(m) => seq![m],
            Option::None => Seq::empty(),
        }),
    decreases s.len(),
{
    let head = (match s.push(o)[0] {
        Option::Some(m) => seq![m],
        Option::None => Seq::<LedMsg>::empty(),
    });
    if s.len() == 0 {
        assert(s.push(o)[0] == o);
        assert(s.push(o).drop_first() =~= Seq::<Option<LedMsg>>::empty());
        assert(present(Seq::<Option<LedMsg>>::empty()) =~= Seq::<LedMsg>::empty());
        assert(present(s.push(o)) == head + present(s.push(o).drop_first()));
        assert(present(s.push(o)) =~= present(s) + (match o {
            Option::Some(m) => seq![m],
            Option::None => Seq::<LedMsg>::empty(),
        }));
    } else {
        assert(s.push(o)[0] == s[0]);
        assert(s.push(o).drop_first() =~= s.drop_first().push(o));
        lemma_present_push(s.drop_first(), o);
        assert(present(s.push(o)) =~= present(s) + (match o {
            Option::Some(m) => seq![m],
            Option::None => Seq::<LedMsg>::empty(),
        }));
    }
}

/// The slots after pruning against reference time `t`: entries more
/// than the prune bound away (in wrapped distance) are dropped, the
/// rest kept.
pub open spec fn pruned(entries: Seq<Option<LedMsg>>, t: u32) -> Seq<Option<LedMsg>> {
    Seq::new(
        entries.len(),
        |i: int|
            match entries[i] {
                Option::Some(v) => if wrapped_apart(t, v.cur_time, prune_bound()) {
                    Option::None
                } else {
                    Option::Some(v)
                },
                Option::None => Option::None,
            },
    )
}

/// A fixed 256-slot store mapping each element id to the most recent
/// message addressed to it.
pub struct MessageStore {
    slots: Vec<Option<LedMsg>>,
}

impl MessageStore {
    /// The store's contents, one optional message per element id.
    pub closed spec fn entries(self) -> Seq<Option<LedMsg>> {
        self.slots@
    }

    /// Well-formedness: 256 slots, and a slot only ever holds a message
    /// addressed to its own element id.
    pub open spec fn wf(self) -> bool {
        &&& self.entries().len() == 256
        &&& forall|i: int|
            0 <= i < 256 ==> (#[trigger] self.entries()[i] matches Option::Some(m) ==> m.element
                == i)
    }

    /// An empty store.
    pub fn new() -> (s: MessageStore)
        ensures
            s.wf(),
            forall|i: int| 0 <= i < 256 ==> s.entries()[i] is None,
    {
        let mut slots: Vec<Option<LedMsg>> = Vec::new();
        let mut i: usize = 0;
        while i < 256
            invariant
                i <= 256,
                slots@.len() == i,
                forall|j: int| 0 <= j < i ==> slots@[j] is None,
            decreases 256 - i,
        {
            slots.push(Option::None);
            i = i + 1;
        }
        MessageStore { slots }
    }

    /// Last-write-wins upsert: overwrite the slot of `m`'s element.
    pub fn set(&mut self, m: LedMsg)
        requires
            old(self).wf(),
        ensures
            final(self).wf(),
            final(self).entries() == old(self).entries().update(m.element as int, Option::Some(m)),
    {
        self.slots[m.element as usize] = Option::Some(m);
    }

    /// Drop every entry whose signed wrapped age relative to
    /// `reference_time` exceeds the prune bound; entries up to that far
    /// in the future are kept.
    pub fn prune(&mut self, reference_time: u32)
        requires
            old(self).wf(),
        ensures
            final(self).wf(),
            final(self).entries().len() == 256,
            forall|i: int|
                0 <= i < 256 ==> final(self).entries()[i] == (match old(self).entries()[i] {
                    Option::Some(v) => if wrapped_apart(reference_time, v.cur_time, prune_bound()) {
                        Option::<LedMsg>::None
                    } else {
                        Option::<LedMsg>::Some(v)
                    },
                    Option::None => Option::<LedMsg>::None,
                }),
    {
        let mut i: usize = 0;
        while i < 256
            invariant
                old(self).wf(),
                i <= 256,
                self.slots@.len() == 256,
                forall|j: int| i <= j < 256 ==> self.slots@[j] == old(self).entries()[j],
                forall|j: int|
                    0 <= j < i ==> self.slots@[j] == (match old(self).entries()[j] {
                        Option::Some(v) => if wrapped_apart(
                            reference_time,
                            v.cur_time,
                            prune_bound(),
                        ) {
                            Option::<LedMsg>::None
                        } else {
                            Option::<LedMsg>::Some(v)
                        },
                        Option::None => Option::<LedMsg>::None,
                    }),
            decreases 256 - i,
        {
            let stale = match &self.slots[i] {
                Option::Some(v) => crate::clock::is_wrapped_apart(
                    reference_time,
                    v.cur_time,
                    5_000_000,
                ),
                Option::None => false,
            };
            if stale {
                self.slots[i] = Option::None;
            }
            i = i + 1;
        }
    }

    /// Collect the non-empty entries of the 64-element id range starting
    /// at `start`, in increasing element order.
    pub fn snapshot(&self, start: usize) -> (batch: Vec<LedMsg>)
        requires
            self.wf(),
            start + 64 <= 256,
        ensures
            batch@ == present(self.entries().subrange(start as int, start + 64)),
            batch@.len() <= 64,
    {
        let mut batch: Vec<LedMsg> = Vec::new();
        let mut i: usize = 0;
        while i < 64
            invariant
                self.wf(),
                start + 64 <= 256,
                i <= 64,
                batch@ == present(self.entries().subrange(start as int, start + i)),
                batch@.len() <= i,
            decreases 64 - i,
        {
            proof {
                assert(self.entries().subrange(start as int, start + i + 1) =~= self.entries()
                    .subrange(start as int, start + i).push(self.entries()[start + i]));
                lemma_present_push(
                    self.entries().subrange(start as int, start + i),
                    self.entries()[start + i],
                );
            }
            match &self.slots[start + i] {
                Option::Some(m) => {
                    batch.push(*m);
                    assert(batch@ =~= present(self.entries().subrange(start as int, start + i + 1)));
                },
                Option::None => {
                    assert(batch@ =~= present(self.entries().subrange(start as int, start + i + 1)));
                },
            }
            i = i + 1;
        }
        batch
    }

    /// The wire bytes of a snapshot, with the earliest entry's timestamp
    /// as the delta baseline: the pull-style read of one notify range.
    /// The packet always holds the whole snapshot and decodes back to
    /// it.
    pub fn snapshot_packet(&self, start: usize) -> (packet: Vec<u8>)
        requires
            self.wf(),
            start + 64 <= 256,
        ensures
            parse(packet@) == Result::<Seq<LedMsg>, crate::msg::CodecError>::Ok(
                present(self.entries().subrange(start as int, start + 64)),
            ),
            packet@.len() <= 512,
    {
        let batch = self.snapshot(start);
        let baseline: u32 = if batch.len() > 0 {
            batch[0].cur_time
        } else {
            0
        };
        let (packet, consumed) = codec::serialize(
            batch.as_slice(),
            512,
            Option::Some(baseline),
        );
        proof {
            codec::lemma_wire_len_bound(batch@, Option::Some(baseline));
            if consumed < batch@.len() {
                codec::lemma_wire_len_bound(
                    batch@.take(consumed + 1),
                    Option::Some(baseline),
                );
                assert(wire_enc(batch@.take(consumed + 1), Option::Some(baseline)).len() <= 5 + 7
                    * (consumed + 1));
                assert(false);
            }
            assert(batch@.take(consumed as int) =~= batch@);
            if consumed > 0 {
                codec::lemma_round_trip(batch@, Option::Some(baseline));
            } else {
                assert(batch@ =~= Seq::<LedMsg>::empty());
                assert(packet@ =~= Seq::<u8>::empty());
            }
        }
        packet
    }
}

} // verus!
