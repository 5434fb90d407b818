//! The routing elements a decoded update expands into, and their
//! mathematical models.
use vstd::prelude::*;
use crate::net::{IpAddress, NetPrefix};

verus! {

/// Whether an element announces or withdraws a route.
#[allow(non_camel_case_types)]
#[derive(Clone, Copy, PartialEq, Eq, Structural, Debug)]
pub enum ElemType {
    ANNOUNCE,
    WITHDRAW,
}

/// A route's origin classification.
#[derive(Clone, Copy, PartialEq, Eq, Structural, Debug)]
pub enum Origin {
    IGP,
    EGP,
    INCOMPLETE,
}

/// A custom community attribute: an ASN and a 16-bit value.
#[derive(Clone, Copy, PartialEq, Eq, Structural, Debug)]
pub struct Community {
    pub asn: u32,
    pub value: u16,
}

/// One segment of a normalized AS path: a single hop, or an AS-SET whose
/// member order is display-only.
#[derive(Clone, PartialEq, Eq, Debug)]
pub enum PathSegment {
    Asn(u32),
    AsSet(Vec<u32>),
}

/// The model of a path segment, with set members as a sequence.
pub enum SegM {
    Asn(u32),
    AsSet(Seq<u32>),
}

impl View for PathSegment {
    type V = SegM;

    open spec fn view(&self) -> SegM {
        match self {
            PathSegment::Asn(a) => SegM::Asn(*a),
            PathSegment::AsSet(ms) => SegM::AsSet(ms@),
        }
    }
}

/// The model of a whole path.
pub open spec fn segs_view(s: Seq<PathSegment>) -> Seq<SegM> {
    s.map_values(|p: PathSegment| p@)
}

/// The model of an optional path.
pub open spec fn opt_segs_view(o: Option<Vec<PathSegment>>) -> Option<Seq<SegM>> {
    match o {
        Some(v) => Some(segs_view(v@)),
        None => None,
    }
}

/// The model of an optional community list.
pub open spec fn opt_comms_view(o: Option<Vec<Community>>) -> Option<Seq<Community>> {
    match o {
        Some(v) => Some(v@),
        None => None,
    }
}

/// Two segments are the same hop, or AS-SETs with the same members; member
/// order in a set segment carries no meaning.
pub open spec fn seg_equiv(a: SegM, b: SegM) -> bool {
    match (a, b) {
        (SegM::Asn(x), SegM::Asn(y)) => x == y,
        (SegM::AsSet(xs), SegM::AsSet(ys)) => xs.to_set() == ys.to_set(),
        _ => false,
    }
}

/// One flat routing element expanded from an update message.
#[derive(Clone, PartialEq, Debug)]
pub struct BgpElem {
    /// The update's timestamp, as the decimal text of the wire value.
    pub timestamp: String,
    pub elem_type: ElemType,
    pub peer_ip: IpAddress,
    pub peer_asn: u32,
    pub prefix: NetPrefix,
    pub next_hop: Option<IpAddress>,
    pub as_path: Option<Vec<PathSegment>>,
    pub origin: Option<Origin>,
    pub med: Option<u32>,
    pub communities: Option<Vec<Community>>,
    pub aggr_asn: Option<u32>,
    pub aggr_ip: Option<IpAddress>,
}

/// The model of a routing element.
pub struct ElemM {
    pub timestamp: Seq<char>,
    pub elem_type: ElemType,
    pub peer_ip: IpAddress,
    pub peer_asn: u32,
    pub prefix: NetPrefix,
    pub next_hop: Option<IpAddress>,
    pub as_path: Option<Seq<SegM>>,
    pub origin: Option<Origin>,
    pub med: Option<u32>,
    pub communities: Option<Seq<Community>>,
    pub aggr_asn: Option<u32>,
    pub aggr_ip: Option<IpAddress>,
}

impl View for BgpElem {
    type V = ElemM;

    open spec fn view(&self) -> ElemM {
        ElemM {
            timestamp: self.timestamp@,
            elem_type: self.elem_type,
            peer_ip: self.peer_ip,
            peer_asn: self.peer_asn,
            prefix: self.prefix,
            next_hop: self.next_hop,
            as_path: opt_segs_view(self.as_path),
            origin: self.origin,
            med: self.med,
            communities: opt_comms_view(self.communities),
            aggr_asn: self.aggr_asn,
            aggr_ip: self.aggr_ip,
        }
    }
}

/// The model of a list of elements.
pub open spec fn elems_view(s: Seq<BgpElem>) -> Seq<ElemM> {
    s.map_values(|e: BgpElem| e@)
}

/// Compares two path segments, treating AS-SET members as unordered.
pub fn segments_match(a: &PathSegment, b: &PathSegment) -> (r: bool)
    ensures
        r == seg_equiv(a@, b@),
{
    match (a, b) {
        (PathSegment::Asn(x), PathSegment::Asn(y)) => *x == *y,
        (PathSegment::AsSet(xs), PathSegment::AsSet(ys)) => {
            let fwd = vec_subset(xs, ys);
            let bwd = vec_subset(ys, xs);
            proof {
                lemma_mutual_subset_to_set(xs@, ys@, fwd && bwd);
            }
            fwd && bwd
        },
        _ => false,
    }
}

/// Two sequences hold the same set of members exactly when each is contained
/// in the other.
proof fn lemma_mutual_subset_to_set(xs: Seq<u32>, ys: Seq<u32>, mutual: bool)
    requires
        mutual == ((forall|i: int| 0 <= i < xs.len() ==> ys.contains(#[trigger] xs[i])) && (
        forall|i: int| 0 <= i < ys.len() ==> xs.contains(#[trigger] ys[i]))),
    ensures
        mutual == (xs.to_set() == ys.to_set()),
{
    if mutual {
        assert forall|a: u32| xs.to_set().contains(a) implies ys.to_set().contains(a) by {
            let i = choose|i: int| 0 <= i < xs.len() && xs[i] == a;
            assert(ys.contains(xs[i]));
        }
        assert forall|a: u32| ys.to_set().contains(a) implies xs.to_set().contains(a) by {
            let i = choose|i: int| 0 <= i < ys.len() && ys[i] == a;
            assert(xs.contains(ys[i]));
        }
        assert(xs.to_set() =~= ys.to_set());
    } else {
        if !(forall|i: int| 0 <= i < xs.len() ==> ys.contains(#[trigger] xs[i])) {
            let i = choose|i: int| 0 <= i < xs.len() && !ys.contains(#[trigger] xs[i]);
            assert(xs.to_set().contains(xs[i]));
            assert(!ys.to_set().contains(xs[i]));
        } else {
            let i = choose|i: int| 0 <= i < ys.len() && !xs.contains(#[trigger] ys[i]);
            assert(ys.to_set().contains(ys[i]));
            assert(!xs.to_set().contains(ys[i]));
        }
    }
}

/// Whether every member of `xs` occurs in `ys`.
fn vec_subset(xs: &Vec<u32>, ys: &Vec<u32>) -> (r: bool)
    ensures
        r == forall|i: int| 0 <= i < xs@.len() ==> ys@.contains(#[trigger] xs@[i]),
{
    let mut i: usize = 0;
    while i < xs.len()
        invariant
            i <= xs@.len(),
            forall|j: int| 0 <= j < i ==> ys@.contains(#[trigger] xs@[j]),
        decreases xs@.len() - i,
    {
        if !vec_contains(ys, xs[i]) {
            return false;
        }
        i = i + 1;
    }
    true
}

/// Whether `x` occurs in `ys`.
fn vec_contains(ys: &Vec<u32>, x: u32) -> (r: bool)
    ensures
        r == ys@.contains(x),
{
    let mut i: usize = 0;
    while i < ys.len()
        invariant
            i <= ys@.len(),
            forall|j: int| 0 <= j < i ==> ys@[j] != x,
        decreases ys@.len() - i,
    {
        if ys[i] == x {
            return true;
        }
        i = i + 1;
    }
    false
}

} // verus!
