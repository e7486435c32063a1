//! The publisher registry: stream-name to publisher, with the
//! exactly-one-publisher-per-name invariant.

use vstd::prelude::*;
use crate::amf0::Amf0Value;
use crate::error::Error;
use crate::time::current_timestamp;
use vstd::string::{StringSliceAdditionalSpecFns, StrSliceExecFns};

verus! {

broadcast use vstd::std_specs::vec::axiom_spec_len;

/// What the registry knows of one publisher.
#[derive(Debug)]
pub struct PublisherInfo {
    /// The connection that owns the stream.
    pub connection_id: String,
    /// The stream name the publisher registered.
    pub stream_name: String,
    /// The message-stream-id assigned on the owning connection.
    pub stream_id: u32,
    /// When publishing started.
    pub started_at: u32,
    /// The most recent metadata, when any arrived.
    pub metadata: Option<Vec<(Vec<u8>, Amf0Value)>>,
    /// How many subscribers are attached.
    pub subscriber_count: usize,
}

/// Whether some entry of s carries the name.
pub open spec fn has_name(s: Seq<PublisherInfo>, name: Seq<char>) -> bool {
    exists|i: int| 0 <= i < s.len() && (#[trigger] s[i]).stream_name@ == name
}

/// The index of the entry carrying the name.
pub open spec fn name_idx(s: Seq<PublisherInfo>, name: Seq<char>) -> int {
    choose|i: int| 0 <= i < s.len() && (#[trigger] s[i]).stream_name@ == name
}

/// Name to publisher, at most one publisher per name.
pub struct PublisherRegistry {
    publishers: Vec<PublisherInfo>,
}

impl PublisherRegistry {
    /// The registered publishers, in registration order.
    pub closed spec fn view_seq(self) -> Seq<PublisherInfo> {
        self.publishers@
    }

    /// At most one publisher exists per stream name at any instant.
    pub open spec fn wf(self) -> bool {
        forall|i: int, j: int|
            0 <= i < j < self.view_seq().len() ==> (#[trigger] self.view_seq()[i]).stream_name@
                != (#[trigger] self.view_seq()[j]).stream_name@
    }

    /// An empty registry.
    pub fn new() -> (r: PublisherRegistry)
        ensures
            r.wf(),
            r.view_seq() == Seq::<PublisherInfo>::empty(),
    {
        PublisherRegistry { publishers: Vec::new() }
    }

    /// Register a publisher under a name.  Succeeds, appending the entry,
    /// exactly when the name is free; a name already owned is refused and
    /// nothing changes.
    pub fn register(&mut self, stream_name: String, connection_id: String, stream_id: u32) -> (r:
        Result<(), Error>)
        requires
            old(self).wf(),
        ensures
            final(self).wf(),
            r is Ok <==> !has_name(old(self).view_seq(), stream_name@),
            r is Ok ==> {
                &&& final(self).view_seq().len() == old(self).view_seq().len() + 1
                &&& final(self).view_seq().take(old(self).view_seq().len() as int) == old(
                    self,
                ).view_seq()
                &&& final(self).view_seq().last().stream_name@ == stream_name@
                &&& final(self).view_seq().last().connection_id@ == connection_id@
                &&& final(self).view_seq().last().stream_id == stream_id
                &&& final(self).view_seq().last().subscriber_count == 0
                &&& has_name(final(self).view_seq(), stream_name@)
            },
            r is Err ==> final(self).view_seq() == old(self).view_seq() && r->Err_0 is Stream,
    {
        if self.contains_name(&stream_name) {
            return Err(Error::stream("Stream is already being published"));
        }
        let info = PublisherInfo {
            connection_id,
            stream_name,
            stream_id,
            started_at: current_timestamp(),
            metadata: None,
            subscriber_count: 0,
        };
        let ghost olds = self.publishers@;
        self.publishers.push(info);
        proof {
            assert(self.publishers@.take(olds.len() as int) =~= olds);
            assert(self.publishers@[olds.len() as int].stream_name@ == stream_name@);
        }
        Ok(())
    }

    /// Remove the publisher under a name.  Succeeds exactly when one is
    /// registered; every other entry stays.
    pub fn unregister(&mut self, stream_name: &str) -> (r: Result<(), Error>)
        requires
            old(self).wf(),
        ensures
            final(self).wf(),
            r is Ok <==> has_name(old(self).view_seq(), stream_name@),
            r is Ok ==> final(self).view_seq() == old(self).view_seq().remove(
                name_idx(old(self).view_seq(), stream_name@),
            ),
            r is Ok ==> !has_name(final(self).view_seq(), stream_name@),
            r is Err ==> final(self).view_seq() == old(self).view_seq() && r->Err_0 is Stream,
    {
        let idx = match self.find_name(stream_name) {
            Some(i) => i,
            None => {
                return Err(Error::stream("Stream not found"));
            },
        };
        let ghost olds = self.publishers@;
        let ghost k = name_idx(olds, stream_name@);
        proof {
            assert(olds[idx as int].stream_name@ == stream_name@);
            assert(0 <= k < olds.len() && olds[k].stream_name@ == stream_name@);
            assert(k == idx as int);
        }
        let _ = self.publishers.remove(idx);
        proof {
            assert forall|i: int|
                0 <= i < self.publishers@.len() implies (
            #[trigger] self.publishers@[i]).stream_name@ != stream_name@ by {
                if i < k {
                    assert(self.publishers@[i] == olds[i]);
                } else {
                    assert(self.publishers@[i] == olds[i + 1]);
                }
            }
        }
        Ok(())
    }

    /// The registered publisher under a name, when one exists.
    pub fn get(&self, stream_name: &str) -> (r: Option<&PublisherInfo>)
        requires
            self.wf(),
        ensures
            r is Some <==> has_name(self.view_seq(), stream_name@),
            r matches Some(p) ==> p == self.view_seq()[name_idx(self.view_seq(), stream_name@)]
                && p.stream_name@ == stream_name@,
    {
        match self.find_name(stream_name) {
            Some(i) => {
                proof {
                    let k = name_idx(self.view_seq(), stream_name@);
                    assert(0 <= k < self.view_seq().len() && self.view_seq()[k].stream_name@
                        == stream_name@);
                    assert(k == i as int);
                }
                Some(&self.publishers[i])
            },
            None => None,
        }
    }

    /// Whether a name is currently published.
    pub fn is_publishing(&self, stream_name: &str) -> (r: bool)
        ensures
            r <==> has_name(self.view_seq(), stream_name@),
    {
        self.contains_name_str(stream_name)
    }

    /// Replace the metadata stored for a name.  Succeeds exactly when the
    /// name is registered; only that entry's metadata changes.
    pub fn update_metadata(&mut self, stream_name: &str, metadata: Vec<(Vec<u8>, Amf0Value)>) -> (
        r: Result<(), Error>)
        requires
            old(self).wf(),
        ensures
            final(self).wf(),
            r is Ok <==> has_name(old(self).view_seq(), stream_name@),
            r is Ok ==> {
                &&& final(self).view_seq().len() == old(self).view_seq().len()
                &&& final(self).view_seq()[name_idx(old(self).view_seq(), stream_name@)].metadata
                    is Some
                &&& forall|i: int|
                    0 <= i < old(self).view_seq().len() && i != name_idx(
                        old(self).view_seq(),
                        stream_name@,
                    ) ==> final(self).view_seq()[i] == old(self).view_seq()[i]
            },
            r is Err ==> final(self).view_seq() == old(self).view_seq() && r->Err_0 is Stream,
    {
        let idx = match self.find_name(stream_name) {
            Some(i) => i,
            None => {
                return Err(Error::stream("Stream not found"));
            },
        };
        proof {
            let k = name_idx(self.view_seq(), stream_name@);
            assert(0 <= k < self.view_seq().len() && self.view_seq()[k].stream_name@
                == stream_name@);
            assert(k == idx as int);
        }
        let ghost olds = self.publishers@;
        let mut entry = self.publishers.remove(idx);
        entry.metadata = Some(metadata);
        self.publishers.insert(idx, entry);
        proof {
            assert(self.publishers@ =~= olds.update(idx as int, self.publishers@[idx as int]));
            assert forall|i: int, j: int|
                0 <= i < j < self.publishers@.len() implies (
            #[trigger] self.publishers@[i]).stream_name@ != (
            #[trigger] self.publishers@[j]).stream_name@ by {
                assert(olds[i].stream_name@ != olds[j].stream_name@);
            }
        }
        Ok(())
    }

    /// Every registered publisher, in registration order.
    pub fn get_all(&self) -> (r: &Vec<PublisherInfo>)
        ensures
            r@ == self.view_seq(),
    {
        &self.publishers
    }

    /// Count one more subscriber on a name.  Succeeds exactly when the
    /// name is registered.
    pub fn increment_subscribers(&mut self, stream_name: &str) -> (r: Result<(), Error>)
        requires
            old(self).wf(),
        ensures
            final(self).wf(),
            r is Ok <==> has_name(old(self).view_seq(), stream_name@),
            r is Ok ==> {
                &&& final(self).view_seq().len() == old(self).view_seq().len()
                &&& final(self).view_seq()[name_idx(old(self).view_seq(), stream_name@)]
                    .subscriber_count == (old(self).view_seq()[name_idx(
                    old(self).view_seq(),
                    stream_name@,
                )].subscriber_count + 1) % (usize::MAX as int + 1)
                &&& forall|i: int|
                    0 <= i < old(self).view_seq().len() && i != name_idx(
                        old(self).view_seq(),
                        stream_name@,
                    ) ==> final(self).view_seq()[i] == old(self).view_seq()[i]
            },
            r is Err ==> final(self).view_seq() == old(self).view_seq() && r->Err_0 is Stream,
    {
        let idx = match self.find_name(stream_name) {
            Some(i) => i,
            None => {
                return Err(Error::stream("Stream not found"));
            },
        };
        proof {
            let k = name_idx(self.view_seq(), stream_name@);
            assert(0 <= k < self.view_seq().len() && self.view_seq()[k].stream_name@
                == stream_name@);
            assert(k == idx as int);
        }
        let ghost olds = self.publishers@;
        let mut entry = self.publishers.remove(idx);
        entry.subscriber_count = entry.subscriber_count.wrapping_add(1);
        self.publishers.insert(idx, entry);
        proof {
            assert(self.publishers@ =~= olds.update(idx as int, self.publishers@[idx as int]));
            assert forall|i: int, j: int|
                0 <= i < j < self.publishers@.len() implies (
            #[trigger] self.publishers@[i]).stream_name@ != (
            #[trigger] self.publishers@[j]).stream_name@ by {
                assert(olds[i].stream_name@ != olds[j].stream_name@);
            }
        }
        Ok(())
    }

    /// Count one fewer subscriber on a name, not below zero.  Succeeds
    /// exactly when the name is registered.
    pub fn decrement_subscribers(&mut self, stream_name: &str) -> (r: Result<(), Error>)
        requires
            old(self).wf(),
        ensures
            final(self).wf(),
            r is Ok <==> has_name(old(self).view_seq(), stream_name@),
            r is Ok ==> {
                &&& final(self).view_seq().len() == old(self).view_seq().len()
                &&& final(self).view_seq()[name_idx(old(self).view_seq(), stream_name@)]
                    .subscriber_count == (if old(self).view_seq()[name_idx(
                    old(self).view_seq(),
                    stream_name@,
                )].subscriber_count > 0 {
                    old(self).view_seq()[name_idx(old(self).view_seq(), stream_name@)]
                        .subscriber_count - 1
                } else {
                    0int
                })
                &&& forall|i: int|
                    0 <= i < old(self).view_seq().len() && i != name_idx(
                        old(self).view_seq(),
                        stream_name@,
                    ) ==> final(self).view_seq()[i] == old(self).view_seq()[i]
            },
            r is Err ==> final(self).view_seq() == old(self).view_seq() && r->Err_0 is Stream,
    {
        let idx = match self.find_name(stream_name) {
            Some(i) => i,
            None => {
                return Err(Error::stream("Stream not found"));
            },
        };
        proof {
            let k = name_idx(self.view_seq(), stream_name@);
            assert(0 <= k < self.view_seq().len() && self.view_seq()[k].stream_name@
                == stream_name@);
            assert(k == idx as int);
        }
        let ghost olds = self.publishers@;
        let mut entry = self.publishers.remove(idx);
        if entry.subscriber_count > 0 {
            entry.subscriber_count = entry.subscriber_count - 1;
        }
        self.publishers.insert(idx, entry);
        proof {
            assert(self.publishers@ =~= olds.update(idx as int, self.publishers@[idx as int]));
            assert forall|i: int, j: int|
                0 <= i < j < self.publishers@.len() implies (
            #[trigger] self.publishers@[i]).stream_name@ != (
            #[trigger] self.publishers@[j]).stream_name@ by {
                assert(olds[i].stream_name@ != olds[j].stream_name@);
            }
        }
        Ok(())
    }

    /// The index of the entry under a name, when one exists.
    fn find_name(&self, stream_name: &str) -> (r: Option<usize>)
        ensures
            r is Some <==> has_name(self.view_seq(), stream_name@),
            r matches Some(i) ==> i < self.view_seq().len()
                && self.view_seq()[i as int].stream_name@ == stream_name@,
    {
        let n = self.publishers.len();
        let mut i: usize = 0;
        while i < n
            invariant
                n == self.publishers@.len(),
                i <= n,
                forall|j: int| 0 <= j < i ==> (#[trigger] self.publishers@[j]).stream_name@
                    != stream_name@,
            decreases n - i,
        {
            if str_eq(self.publishers[i].stream_name.as_str(), stream_name) {
                return Some(i);
            }
            i = i + 1;
        }
        None
    }

    /// Whether a String name is present.
    fn contains_name(&self, stream_name: &String) -> (r: bool)
        ensures
            r <==> has_name(self.view_seq(), stream_name@),
    {
        self.contains_name_str(stream_name.as_str())
    }

    /// Whether a name is present.
    fn contains_name_str(&self, stream_name: &str) -> (r: bool)
        ensures
            r <==> has_name(self.view_seq(), stream_name@),
    {
        match self.find_name(stream_name) {
            Some(_) => true,
            None => false,
        }
    }
}

/// Exactly one publisher: in a well-formed registry any two entries under
/// the same stream name are the same entry.
pub proof fn lemma_exactly_one_publisher(r: PublisherRegistry, i: int, j: int)
    requires
        r.wf(),
        0 <= i < r.view_seq().len(),
        0 <= j < r.view_seq().len(),
        r.view_seq()[i].stream_name@ == r.view_seq()[j].stream_name@,
    ensures
        i == j,
{
}

/// Whether two strings hold the same characters.
pub fn str_eq(a: &str, b: &str) -> (r: bool)
    ensures
        r <==> a@ == b@,
{
    let av = a.as_bytes_vec();
    let bv = b.as_bytes_vec();
    let r = byte_vec_eq(&av, &bv);
    proof {
        if a@ == b@ {
            assert(a.spec_bytes() == b.spec_bytes());
        }
        if av@ == bv@ {
            vstd::utf8::encode_utf8_decode_utf8(a@);
            vstd::utf8::encode_utf8_decode_utf8(b@);
        }
    }
    r
}

/// Whether two byte vectors hold the same bytes.
fn byte_vec_eq(a: &Vec<u8>, b: &Vec<u8>) -> (r: bool)
    ensures
        r <==> a@ == b@,
{
    if a.len() != b.len() {
        return false;
    }
    let n = a.len();
    let mut i: usize = 0;
    while i < n
        invariant
            n == a@.len() == b@.len(),
            i <= n,
            forall|j: int| 0 <= j < i ==> a@[j] == b@[j],
        decreases n - i,
    {
        if a[i] != b[i] {
            return false;
        }
        i = i + 1;
    }
    proof {
        assert(a@ =~= b@);
    }
    true
}

} // verus!
