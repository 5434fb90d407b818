//! Laws of the decoder, stated over the decode specification and proved
//! once and for all.
use vstd::prelude::*;
use crate::decode::{
    block_spec, blocks_spec, data_spec, doc_spec, message_spec, prefixes_spec, update_spec,
    SharedM,
};
use crate::elements::{seg_equiv, ElemM, SegM};
use crate::error::ErrM;
use crate::json::{json_of, obj_field, present_field, JsonData};
use crate::messages::{comm_items_spec, path_item_spec, path_items_spec, set_members_spec};
use crate::net::{ip_of, IpAddress};
use crate::text::dec_u32_of;

verus! {

/// How many prefixes one block names: announced plus withdrawn.
pub open spec fn block_count(d: JsonData) -> int {
    (match obj_field(d, "prefixes"@) {
        Some(JsonData::Arr(ps)) => ps.len() as int,
        _ => 0,
    }) + (match present_field(d, "withdrawals"@) {
        Some(JsonData::Arr(ws)) => ws.len() as int,
        _ => 0,
    })
}

/// How many prefixes a block list names in all.
pub open spec fn total_count(blocks: Seq<JsonData>) -> int
    decreases blocks.len(),
{
    if blocks.len() == 0 {
        0
    } else {
        block_count(blocks[0]) + total_count(blocks.drop_first())
    }
}

/// How many prefixes an update payload names in all.
pub open spec fn update_count(data: JsonData) -> int {
    match present_field(data, "announcements"@) {
        Some(JsonData::Arr(blocks)) => total_count(blocks),
        _ => 0,
    }
}

proof fn lemma_prefixes_len(
    items: Seq<JsonData>,
    sh: SharedM,
    nh: IpAddress,
    announce: bool,
    s: Seq<char>,
)
    ensures
        prefixes_spec(items, sh, nh, announce, s) matches Ok(es) ==> es.len() == items.len(),
    decreases items.len(),
{
    if items.len() > 0 {
        lemma_prefixes_len(items.drop_first(), sh, nh, announce, s);
    }
}

proof fn lemma_block_len(d: JsonData, sh: SharedM, s: Seq<char>)
    ensures
        block_spec(d, sh, s) matches Ok(es) ==> es.len() == block_count(d),
{
    match obj_field(d, "next_hop"@) {
        Some(JsonData::Str(nh_txt)) => {
            match ip_of(nh_txt) {
                Some(nh) => {
                    match obj_field(d, "prefixes"@) {
                        Some(JsonData::Arr(ps)) => {
                            lemma_prefixes_len(ps, sh, nh, true, s);
                            match present_field(d, "withdrawals"@) {
                                Some(JsonData::Arr(ws)) => {
                                    lemma_prefixes_len(ws, sh, nh, false, s);
                                },
                                _ => {},
                            }
                        },
                        _ => {},
                    }
                },
                None => {},
            }
        },
        _ => {},
    }
}

/// A decoded block list holds exactly one element per announced or withdrawn
/// prefix.
pub proof fn lemma_output_length(blocks: Seq<JsonData>, sh: SharedM, s: Seq<char>)
    ensures
        blocks_spec(blocks, sh, s) matches Ok(es) ==> es.len() == total_count(blocks),
    decreases blocks.len(),
{
    if blocks.len() > 0 {
        lemma_block_len(blocks[0], sh, s);
        lemma_output_length(blocks.drop_first(), sh, s);
    }
}

/// A decoded update holds exactly one element per announced or withdrawn
/// prefix over all its blocks.
pub proof fn lemma_update_output_length(
    data: JsonData,
    ts: Seq<char>,
    peer: Seq<char>,
    pasn: Seq<char>,
    s: Seq<char>,
)
    ensures
        update_spec(data, ts, peer, pasn, s) matches Ok(es) ==> es.len() == update_count(data),
{
    match present_field(data, "announcements"@) {
        Some(d) => match d {
            JsonData::Arr(blocks) => {
                assert forall|sh: SharedM|
                    #![trigger blocks_spec(blocks, sh, s)]
                    (blocks_spec(blocks, sh, s) matches Ok(es) ==> es.len() == total_count(
                        blocks,
                    )) by {
                    lemma_output_length(blocks, sh, s);
                }
            },
            _ => {},
        },
        None => {},
    }
}

/// A well-formed update with no optional attributes and no announcement
/// blocks decodes to the empty list without error.
pub proof fn lemma_empty_update(
    data: JsonData,
    ts: Seq<char>,
    peer: Seq<char>,
    pasn: Seq<char>,
    s: Seq<char>,
)
    ensures
        (ip_of(peer) is Some && dec_u32_of(pasn) is Some && present_field(data, "path"@) is None
            && present_field(data, "community"@) is None && present_field(data, "origin"@) is None
            && present_field(data, "med"@) is None && present_field(data, "aggregator"@) is None
            && present_field(data, "announcements"@) is None) ==> update_spec(
            data,
            ts,
            peer,
            pasn,
            s,
        ) == Ok::<Seq<ElemM>, ErrM>(Seq::<ElemM>::empty()),
{
}

proof fn lemma_set_members_no_eor(items: Seq<JsonData>, s: Seq<char>)
    ensures
        set_members_spec(items, s) != Err::<Seq<u32>, ErrM>(ErrM::IncorrectPrefix("eor"@)),
    decreases items.len(),
{
    if items.len() > 0 {
        lemma_set_members_no_eor(items.drop_first(), s);
    }
}

proof fn lemma_path_items_no_eor(items: Seq<JsonData>, s: Seq<char>)
    ensures
        path_items_spec(items, s) != Err::<Seq<SegM>, ErrM>(ErrM::IncorrectPrefix("eor"@)),
    decreases items.len(),
{
    if items.len() > 0 {
        match path_item_spec(items[0], s) {
            Ok(_) => {},
            Err(_) => {
                match items[0] {
                    JsonData::Arr(ms) => {
                        lemma_set_members_no_eor(ms, s);
                    },
                    _ => {},
                }
            },
        }
        lemma_path_items_no_eor(items.drop_first(), s);
    }
}

proof fn lemma_comm_items_no_eor(items: Seq<JsonData>, s: Seq<char>)
    ensures
        comm_items_spec(items, s) != Err::<Seq<crate::elements::Community>, ErrM>(
            ErrM::IncorrectPrefix("eor"@),
        ),
    decreases items.len(),
{
    if items.len() > 0 {
        lemma_comm_items_no_eor(items.drop_first(), s);
    }
}

proof fn lemma_prefixes_no_eor(
    items: Seq<JsonData>,
    sh: SharedM,
    nh: IpAddress,
    announce: bool,
    s: Seq<char>,
)
    ensures
        prefixes_spec(items, sh, nh, announce, s) != Err::<Seq<ElemM>, ErrM>(
            ErrM::IncorrectPrefix("eor"@),
        ),
    decreases items.len(),
{
    if items.len() > 0 {
        lemma_prefixes_no_eor(items.drop_first(), sh, nh, announce, s);
    }
}

proof fn lemma_block_no_eor(d: JsonData, sh: SharedM, s: Seq<char>)
    ensures
        block_spec(d, sh, s) != Err::<Seq<ElemM>, ErrM>(ErrM::IncorrectPrefix("eor"@)),
{
    match obj_field(d, "next_hop"@) {
        Some(JsonData::Str(nh_txt)) => {
            match ip_of(nh_txt) {
                Some(nh) => {
                    match obj_field(d, "prefixes"@) {
                        Some(JsonData::Arr(ps)) => {
                            lemma_prefixes_no_eor(ps, sh, nh, true, s);
                            match present_field(d, "withdrawals"@) {
                                Some(JsonData::Arr(ws)) => {
                                    lemma_prefixes_no_eor(ws, sh, nh, false, s);
                                },
                                _ => {},
                            }
                        },
                        _ => {},
                    }
                },
                None => {},
            }
        },
        _ => {},
    }
}

proof fn lemma_blocks_no_eor(blocks: Seq<JsonData>, sh: SharedM, s: Seq<char>)
    ensures
        blocks_spec(blocks, sh, s) != Err::<Seq<ElemM>, ErrM>(ErrM::IncorrectPrefix("eor"@)),
    decreases blocks.len(),
{
    if blocks.len() > 0 {
        lemma_block_no_eor(blocks[0], sh, s);
        lemma_blocks_no_eor(blocks.drop_first(), sh, s);
    }
}

proof fn lemma_update_no_eor(
    data: JsonData,
    ts: Seq<char>,
    peer: Seq<char>,
    pasn: Seq<char>,
    s: Seq<char>,
)
    ensures
        update_spec(data, ts, peer, pasn, s) != Err::<Seq<ElemM>, ErrM>(
            ErrM::IncorrectPrefix("eor"@),
        ),
{
    match present_field(data, "path"@) {
        Some(d) => {
            match d {
                JsonData::Arr(items) => {
                    lemma_path_items_no_eor(items, s);
                },
                _ => {},
            }
        },
        None => {},
    }
    match present_field(data, "community"@) {
        Some(d) => {
            match d {
                JsonData::Arr(items) => {
                    lemma_comm_items_no_eor(items, s);
                },
                _ => {},
            }
        },
        None => {},
    }
    match present_field(data, "announcements"@) {
        Some(d) => match d {
            JsonData::Arr(blocks) => {
                assert forall|sh: SharedM| #[trigger] blocks_spec(blocks, sh, s) != Err::<
                    Seq<ElemM>,
                    ErrM,
                >(ErrM::IncorrectPrefix("eor"@)) by {
                    lemma_blocks_no_eor(blocks, sh, s);
                }
            },
            _ => {},
        },
        None => {},
    }
}

/// The sentinel literal `eor` is never reported as a bad prefix: wherever it
/// appears in a prefix list it yields the end-of-table signal, which carries
/// no elements.
pub proof fn lemma_eor_never_semantic(s: Seq<char>)
    ensures
        message_spec(s) != Err::<Seq<ElemM>, ErrM>(ErrM::IncorrectPrefix("eor"@)),
{
    match json_of(s) {
        None => {},
        Some(doc) => {
            match obj_field(doc, "type"@) {
                Some(JsonData::Str(t)) => {
                    match obj_field(doc, "data"@) {
                        Some(data) => {
                            match obj_field(data, "timestamp"@) {
                                Some(JsonData::Num(ts)) => {
                                    match obj_field(data, "peer"@) {
                                        Some(JsonData::Str(peer)) => {
                                            match obj_field(data, "peer_asn"@) {
                                                Some(JsonData::Str(pasn)) => {
                                                    lemma_update_no_eor(data, ts, peer, pasn, s);
                                                },
                                                _ => {},
                                            }
                                        },
                                        _ => {},
                                    }
                                },
                                _ => {},
                            }
                        },
                        None => {},
                    }
                },
                _ => {},
            }
        },
    }
}

/// An envelope of any kind other than `ris_message` decodes to the empty
/// list, whether or not the kind is recognized.
pub proof fn lemma_other_kind_empty(doc: JsonData, t: Seq<char>, s: Seq<char>)
    ensures
        (obj_field(doc, "type"@) == Some(JsonData::Str(t)) && t != "ris_message"@) ==> doc_spec(
            doc,
            s,
        ) == Ok::<Seq<ElemM>, ErrM>(Seq::<ElemM>::empty()),
{
}

/// A message payload whose inner type is any string other than `UPDATE`
/// decodes to the empty list, as does one with no inner type at all.
pub proof fn lemma_other_payload_empty(data: JsonData, t: Seq<char>, s: Seq<char>)
    ensures
        (obj_field(data, "timestamp"@) matches Some(JsonData::Num(_))
            && obj_field(data, "peer"@) matches Some(JsonData::Str(_)) && obj_field(
            data,
            "peer_asn"@,
        ) matches Some(JsonData::Str(_)) && present_field(data, "type"@) == Some(JsonData::Str(t))
            && t != "UPDATE"@) ==> data_spec(data, s) == Ok::<Seq<ElemM>, ErrM>(
            Seq::<ElemM>::empty(),
        ),
        (obj_field(data, "timestamp"@) matches Some(JsonData::Num(_))
            && obj_field(data, "peer"@) matches Some(JsonData::Str(_)) && obj_field(
            data,
            "peer_asn"@,
        ) matches Some(JsonData::Str(_)) && present_field(data, "type"@) is None) ==> data_spec(
            data,
            s,
        ) == Ok::<Seq<ElemM>, ErrM>(Seq::<ElemM>::empty()),
{
}

/// The element invariants of one expansion: every element carries the
/// update's timestamp, peer address and peer ASN, announce elements carry the
/// block's next hop, and withdraw elements carry no path attributes at all.
pub open spec fn elem_invariant(e: ElemM, sh: SharedM) -> bool {
    &&& e.timestamp == sh.timestamp
    &&& e.peer_ip == sh.peer_ip
    &&& e.peer_asn == sh.peer_asn
    &&& (e.elem_type is WITHDRAW ==> e.next_hop is None && e.as_path is None && e.origin is None
        && e.med is None && e.communities is None && e.aggr_asn is None && e.aggr_ip is None)
    &&& (e.elem_type is ANNOUNCE ==> e.next_hop is Some && e.as_path == sh.as_path && e.origin
        == sh.origin && e.med == sh.med && e.communities == sh.communities && e.aggr_asn
        == sh.aggr_asn && e.aggr_ip == sh.aggr_ip)
}

proof fn lemma_prefixes_elem_invariant(
    items: Seq<JsonData>,
    sh: SharedM,
    nh: IpAddress,
    announce: bool,
    s: Seq<char>,
)
    ensures
        prefixes_spec(items, sh, nh, announce, s) matches Ok(es) ==> forall|i: int|
            0 <= i < es.len() ==> elem_invariant(#[trigger] es[i], sh),
    decreases items.len(),
{
    if items.len() > 0 {
        lemma_prefixes_elem_invariant(items.drop_first(), sh, nh, announce, s);
    }
}

proof fn lemma_block_elem_invariant(d: JsonData, sh: SharedM, s: Seq<char>)
    ensures
        block_spec(d, sh, s) matches Ok(es) ==> forall|i: int|
            0 <= i < es.len() ==> elem_invariant(#[trigger] es[i], sh),
{
    match obj_field(d, "next_hop"@) {
        Some(JsonData::Str(nh_txt)) => {
            match ip_of(nh_txt) {
                Some(nh) => {
                    match obj_field(d, "prefixes"@) {
                        Some(JsonData::Arr(ps)) => {
                            lemma_prefixes_elem_invariant(ps, sh, nh, true, s);
                            match present_field(d, "withdrawals"@) {
                                Some(JsonData::Arr(ws)) => {
                                    lemma_prefixes_elem_invariant(ws, sh, nh, false, s);
                                },
                                _ => {},
                            }
                        },
                        _ => {},
                    }
                },
                None => {},
            }
        },
        _ => {},
    }
}

/// Every element a block list decodes to satisfies the element invariants:
/// it carries the update's timestamp and peer, and a withdraw element never
/// carries next hop, path, origin, MED, communities or aggregator fields.
pub proof fn lemma_elements_well_formed(blocks: Seq<JsonData>, sh: SharedM, s: Seq<char>)
    ensures
        blocks_spec(blocks, sh, s) matches Ok(es) ==> forall|i: int|
            0 <= i < es.len() ==> elem_invariant(#[trigger] es[i], sh),
    decreases blocks.len(),
{
    if blocks.len() > 0 {
        lemma_block_elem_invariant(blocks[0], sh, s);
        lemma_elements_well_formed(blocks.drop_first(), sh, s);
    }
}

/// A path entry that is a nested list normalizes to an AS-SET segment.
pub proof fn lemma_nested_list_set_segment(ms: Seq<JsonData>, s: Seq<char>)
    ensures
        path_item_spec(JsonData::Arr(ms), s) matches Ok(seg) ==> seg is AsSet,
{
}

/// Set segments with the same members are equivalent whatever order the
/// members are listed in.
pub proof fn lemma_set_segment_ignores_order(xs: Seq<u32>, ys: Seq<u32>)
    ensures
        xs.to_set() == ys.to_set() ==> seg_equiv(SegM::AsSet(xs), SegM::AsSet(ys)),
{
}

} // verus!
