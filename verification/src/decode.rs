//! The message decoder: envelope, update body, and element expansion.
//!
//! `message_spec` is the full mathematical statement of what a text decodes
//! to; [`parse_ris_live_message`] is proved to return exactly that. Decoding
//! is atomic per message: the first failure aborts the whole message and no
//! partial element list is ever returned.
use vstd::prelude::*;
use crate::elements::{
    elems_view, opt_comms_view, opt_segs_view, segs_view, BgpElem, Community, ElemM, ElemType,
    Origin, PathSegment, SegM,
};
use crate::error::{ErrM, ParserRisliveError};
use crate::json::{
    arr_view, get_present, json_of, json_parse, json_view, num_u64_of, obj_field, present_field,
    value_as_array, value_as_str, value_as_u64, value_get, value_num_string, JsonData,
};
use crate::messages::{
    aggregator_spec, community_spec, origin_spec, parse_aggregator, parse_as_path,
    parse_communities, parse_origin, path_spec,
};
use crate::net::{ip_of, parse_ip_text, parse_prefix_text, prefix_of, IpAddress, NetPrefix};
use crate::text::{dec_u32_of, parse_u32_dec, str_eq};

verus! {

/// The attributes one update shares across all elements it expands into.
pub struct SharedM {
    pub timestamp: Seq<char>,
    pub peer_ip: IpAddress,
    pub peer_asn: u32,
    pub as_path: Option<Seq<SegM>>,
    pub origin: Option<Origin>,
    pub med: Option<u32>,
    pub communities: Option<Seq<Community>>,
    pub aggr_asn: Option<u32>,
    pub aggr_ip: Option<IpAddress>,
}

/// The executable form of the shared attributes.
struct Shared {
    timestamp: String,
    peer_ip: IpAddress,
    peer_asn: u32,
    as_path: Option<Vec<PathSegment>>,
    origin: Option<Origin>,
    med: Option<u32>,
    communities: Option<Vec<Community>>,
    aggr_asn: Option<u32>,
    aggr_ip: Option<IpAddress>,
}

impl View for Shared {
    type V = SharedM;

    closed spec fn view(&self) -> SharedM {
        SharedM {
            timestamp: self.timestamp@,
            peer_ip: self.peer_ip,
            peer_asn: self.peer_asn,
            as_path: opt_segs_view(self.as_path),
            origin: self.origin,
            med: self.med,
            communities: opt_comms_view(self.communities),
            aggr_asn: self.aggr_asn,
            aggr_ip: self.aggr_ip,
        }
    }
}

/// An announce element carries the prefix, its block's next hop, and every
/// shared attribute.
pub open spec fn announce_elem_m(sh: SharedM, nh: IpAddress, p: NetPrefix) -> ElemM {
    ElemM {
        timestamp: sh.timestamp,
        elem_type: ElemType::ANNOUNCE,
        peer_ip: sh.peer_ip,
        peer_asn: sh.peer_asn,
        prefix: p,
        next_hop: Some(nh),
        as_path: sh.as_path,
        origin: sh.origin,
        med: sh.med,
        communities: sh.communities,
        aggr_asn: sh.aggr_asn,
        aggr_ip: sh.aggr_ip,
    }
}

/// A withdraw element carries only the timestamp, peer and prefix: a
/// withdrawal has no path attributes.
pub open spec fn withdraw_elem_m(sh: SharedM, p: NetPrefix) -> ElemM {
    ElemM {
        timestamp: sh.timestamp,
        elem_type: ElemType::WITHDRAW,
        peer_ip: sh.peer_ip,
        peer_asn: sh.peer_asn,
        prefix: p,
        next_hop: None,
        as_path: None,
        origin: None,
        med: None,
        communities: None,
        aggr_asn: None,
        aggr_ip: None,
    }
}

/// What a prefix list expands to, in order: the sentinel literal `eor` ends
/// the whole decode with the end-of-table signal, an unparseable literal is a
/// semantic error naming it, and every other literal becomes one element.
pub open spec fn prefixes_spec(
    items: Seq<JsonData>,
    sh: SharedM,
    nh: IpAddress,
    announce: bool,
    s: Seq<char>,
) -> Result<Seq<ElemM>, ErrM>
    decreases items.len(),
{
    if items.len() == 0 {
        Ok(Seq::empty())
    } else {
        match items[0] {
            JsonData::Str(p) => if p == "eor"@ {
                Err(ErrM::EndOfRib)
            } else {
                match prefix_of(p) {
                    None => Err(ErrM::IncorrectPrefix(p)),
                    Some(np) => match prefixes_spec(items.drop_first(), sh, nh, announce, s) {
                        Err(e) => Err(e),
                        Ok(rest) => Ok(
                            seq![
                                if announce {
                                    announce_elem_m(sh, nh, np)
                                } else {
                                    withdraw_elem_m(sh, np)
                                },
                            ] + rest,
                        ),
                    },
                }
            },
            _ => Err(ErrM::IncorrectJson(s)),
        }
    }
}

/// What one announcement block expands to: its next hop must be an IP text,
/// its announced prefixes come first, then its withdrawn prefixes.
pub open spec fn block_spec(d: JsonData, sh: SharedM, s: Seq<char>) -> Result<Seq<ElemM>, ErrM> {
    match obj_field(d, "next_hop"@) {
        Some(JsonData::Str(nh_txt)) => match ip_of(nh_txt) {
            None => Err(ErrM::IncorrectJson(s)),
            Some(nh) => match obj_field(d, "prefixes"@) {
                Some(JsonData::Arr(ps)) => match prefixes_spec(ps, sh, nh, true, s) {
                    Err(e) => Err(e),
                    Ok(aes) => match present_field(d, "withdrawals"@) {
                        None => Ok(aes),
                        Some(JsonData::Arr(ws)) => match prefixes_spec(ws, sh, nh, false, s) {
                            Err(e) => Err(e),
                            Ok(wes) => Ok(aes + wes),
                        },
                        Some(_) => Err(ErrM::IncorrectJson(s)),
                    },
                },
                _ => Err(ErrM::IncorrectJson(s)),
            },
        },
        _ => Err(ErrM::IncorrectJson(s)),
    }
}

/// What the block list expands to: each block's elements in turn, blocks in
/// input order.
pub open spec fn blocks_spec(items: Seq<JsonData>, sh: SharedM, s: Seq<char>) -> Result<
    Seq<ElemM>,
    ErrM,
>
    decreases items.len(),
{
    if items.len() == 0 {
        Ok(Seq::empty())
    } else {
        match block_spec(items[0], sh, s) {
            Err(e) => Err(e),
            Ok(cur) => match blocks_spec(items.drop_first(), sh, s) {
                Err(e) => Err(e),
                Ok(rest) => Ok(cur + rest),
            },
        }
    }
}

/// The normalized AS-path attribute, if present; a `null` counts as absent.
pub open spec fn opt_path_spec(data: JsonData, s: Seq<char>) -> Result<Option<Seq<SegM>>, ErrM> {
    match present_field(data, "path"@) {
        None => Ok(None),
        Some(d) => match path_spec(d, s) {
            Ok(p) => Ok(Some(p)),
            Err(e) => Err(e),
        },
    }
}

/// The normalized community list, if present.
pub open spec fn opt_comms_spec(data: JsonData, s: Seq<char>) -> Result<
    Option<Seq<Community>>,
    ErrM,
> {
    match present_field(data, "community"@) {
        None => Ok(None),
        Some(d) => match community_spec(d, s) {
            Ok(cs) => Ok(Some(cs)),
            Err(e) => Err(e),
        },
    }
}

/// The normalized origin, if present; the field must be a string.
pub open spec fn opt_origin_spec(data: JsonData, s: Seq<char>) -> Result<Option<Origin>, ErrM> {
    match present_field(data, "origin"@) {
        None => Ok(None),
        Some(JsonData::Str(t)) => match origin_spec(t) {
            Ok(o) => Ok(Some(o)),
            Err(e) => Err(e),
        },
        Some(_) => Err(ErrM::IncorrectJson(s)),
    }
}

/// The MED attribute, if present; it must be an unsigned integer fitting 32
/// bits.
pub open spec fn opt_med_spec(data: JsonData, s: Seq<char>) -> Result<Option<u32>, ErrM> {
    match present_field(data, "med"@) {
        None => Ok(None),
        Some(d) => match num_u64_of(d) {
            Some(n) => if n <= u32::MAX {
                Ok(Some(n as u32))
            } else {
                Err(ErrM::IncorrectJson(s))
            },
            None => Err(ErrM::IncorrectJson(s)),
        },
    }
}

/// The aggregator pair, if present; the field must be a string in
/// `"ASN:IP"` form, and an absent field yields no aggregator attributes.
pub open spec fn opt_aggr_spec(data: JsonData, s: Seq<char>) -> Result<
    (Option<u32>, Option<IpAddress>),
    ErrM,
> {
    match present_field(data, "aggregator"@) {
        None => Ok((None, None)),
        Some(JsonData::Str(t)) => match aggregator_spec(t) {
            Ok(pair) => Ok((Some(pair.0), Some(pair.1))),
            Err(e) => Err(e),
        },
        Some(_) => Err(ErrM::IncorrectJson(s)),
    }
}

/// What an update payload decodes to. The peer address and peer ASN are
/// mandatory scalars: either failing to parse is a transport error. All
/// other attributes are optional, and an absent block list yields no
/// elements.
pub open spec fn update_spec(
    data: JsonData,
    ts: Seq<char>,
    peer: Seq<char>,
    pasn: Seq<char>,
    s: Seq<char>,
) -> Result<Seq<ElemM>, ErrM> {
    match ip_of(peer) {
        None => Err(ErrM::IncorrectJson(s)),
        Some(pip) => match dec_u32_of(pasn) {
            None => Err(ErrM::IncorrectJson(s)),
            Some(pasn_v) => match opt_path_spec(data, s) {
                Err(e) => Err(e),
                Ok(path) => match opt_comms_spec(data, s) {
                    Err(e) => Err(e),
                    Ok(comms) => match opt_origin_spec(data, s) {
                        Err(e) => Err(e),
                        Ok(origin) => match opt_med_spec(data, s) {
                            Err(e) => Err(e),
                            Ok(med) => match opt_aggr_spec(data, s) {
                                Err(e) => Err(e),
                                Ok(aggr) => {
                                    let sh = SharedM {
                                        timestamp: ts,
                                        peer_ip: pip,
                                        peer_asn: pasn_v,
                                        as_path: path,
                                        origin: origin,
                                        med: med,
                                        communities: comms,
                                        aggr_asn: aggr.0,
                                        aggr_ip: aggr.1,
                                    };
                                    match present_field(data, "announcements"@) {
                                        None => Ok(Seq::empty()),
                                        Some(JsonData::Arr(blocks)) => blocks_spec(blocks, sh, s),
                                        Some(_) => Err(ErrM::IncorrectJson(s)),
                                    }
                                },
                            },
                        },
                    },
                },
            },
        },
    }
}

/// What a message payload decodes to. Timestamp, peer and peer ASN are the
/// mandatory fields; without an inner `UPDATE` tag the payload carries no
/// elements, and any other payload type decodes to the empty list.
pub open spec fn data_spec(data: JsonData, s: Seq<char>) -> Result<Seq<ElemM>, ErrM> {
    match obj_field(data, "timestamp"@) {
        Some(JsonData::Num(ts)) => match obj_field(data, "peer"@) {
            Some(JsonData::Str(peer)) => match obj_field(data, "peer_asn"@) {
                Some(JsonData::Str(pasn)) => match present_field(data, "type"@) {
                    None => Ok(Seq::empty()),
                    Some(JsonData::Str(t)) => if t == "UPDATE"@ {
                        update_spec(data, ts, peer, pasn, s)
                    } else {
                        Ok(Seq::empty())
                    },
                    Some(_) => Err(ErrM::IncorrectJson(s)),
                },
                _ => Err(ErrM::IncorrectJson(s)),
            },
            _ => Err(ErrM::IncorrectJson(s)),
        },
        _ => Err(ErrM::IncorrectJson(s)),
    }
}

/// What an envelope decodes to. The envelope must be an object whose `type`
/// is a string; any kind other than `ris_message` decodes to the empty list,
/// recognized or not.
pub open spec fn doc_spec(doc: JsonData, s: Seq<char>) -> Result<Seq<ElemM>, ErrM> {
    match obj_field(doc, "type"@) {
        Some(JsonData::Str(t)) => if t != "ris_message"@ {
            Ok(Seq::empty())
        } else {
            match obj_field(doc, "data"@) {
                None => Err(ErrM::IncorrectJson(s)),
                Some(d) => data_spec(d, s),
            }
        },
        _ => Err(ErrM::IncorrectJson(s)),
    }
}

/// What a whole text decodes to: a text that is not valid JSON is a
/// transport error carrying the text itself.
pub open spec fn message_spec(s: Seq<char>) -> Result<Seq<ElemM>, ErrM> {
    match json_of(s) {
        None => Err(ErrM::IncorrectJson(s)),
        Some(doc) => doc_spec(doc, s),
    }
}

/// The model of a decode result.
pub open spec fn res_view(r: Result<Vec<BgpElem>, ParserRisliveError>) -> Result<
    Seq<ElemM>,
    ErrM,
> {
    match r {
        Ok(v) => Ok(elems_view(v@)),
        Err(e) => Err(e@),
    }
}

fn clone_u32s(v: &Vec<u32>) -> (r: Vec<u32>)
    ensures
        r@ == v@,
{
    let mut out: Vec<u32> = Vec::new();
    let mut i: usize = 0;
    while i < v.len()
        invariant
            i <= v@.len(),
            out@ =~= v@.take(i as int),
        decreases v@.len() - i,
    {
        out.push(v[i]);
        i = i + 1;
    }
    proof {
        assert(v@.take(v@.len() as int) =~= v@);
    }
    out
}

fn clone_opt_segments(o: &Option<Vec<PathSegment>>) -> (r: Option<Vec<PathSegment>>)
    ensures
        opt_segs_view(r) == opt_segs_view(*o),
{
    match o {
        None => None,
        Some(v) => {
            let mut out: Vec<PathSegment> = Vec::new();
            let mut i: usize = 0;
            while i < v.len()
                invariant
                    i <= v@.len(),
                    segs_view(out@) =~= segs_view(v@.take(i as int)),
                decreases v@.len() - i,
            {
                let seg = match &v[i] {
                    PathSegment::Asn(a) => PathSegment::Asn(*a),
                    PathSegment::AsSet(ms) => PathSegment::AsSet(clone_u32s(ms)),
                };
                out.push(seg);
                proof {
                    assert(segs_view(v@.take(i + 1)) =~= segs_view(v@.take(i as int)).push(
                        v@[i as int]@,
                    ));
                    assert(segs_view(out@) =~= segs_view(v@.take(i + 1)));
                }
                i = i + 1;
            }
            proof {
                assert(v@.take(v@.len() as int) =~= v@);
            }
            Some(out)
        },
    }
}

fn clone_opt_comms(o: &Option<Vec<Community>>) -> (r: Option<Vec<Community>>)
    ensures
        opt_comms_view(r) == opt_comms_view(*o),
{
    match o {
        None => None,
        Some(v) => {
            let mut out: Vec<Community> = Vec::new();
            let mut i: usize = 0;
            while i < v.len()
                invariant
                    i <= v@.len(),
                    out@ =~= v@.take(i as int),
                decreases v@.len() - i,
            {
                out.push(v[i]);
                i = i + 1;
            }
            proof {
                assert(v@.take(v@.len() as int) =~= v@);
            }
            Some(out)
        },
    }
}

fn make_announce(sh: &Shared, nh: IpAddress, p: NetPrefix) -> (e: BgpElem)
    ensures
        e@ == announce_elem_m(sh@, nh, p),
{
    BgpElem {
        timestamp: sh.timestamp.clone(),
        elem_type: ElemType::ANNOUNCE,
        peer_ip: sh.peer_ip,
        peer_asn: sh.peer_asn,
        prefix: p,
        next_hop: Some(nh),
        as_path: clone_opt_segments(&sh.as_path),
        origin: sh.origin,
        med: sh.med,
        communities: clone_opt_comms(&sh.communities),
        aggr_asn: sh.aggr_asn,
        aggr_ip: sh.aggr_ip,
    }
}

fn make_withdraw(sh: &Shared, p: NetPrefix) -> (e: BgpElem)
    ensures
        e@ == withdraw_elem_m(sh@, p),
{
    BgpElem {
        timestamp: sh.timestamp.clone(),
        elem_type: ElemType::WITHDRAW,
        peer_ip: sh.peer_ip,
        peer_asn: sh.peer_asn,
        prefix: p,
        next_hop: None,
        as_path: None,
        origin: None,
        med: None,
        communities: None,
        aggr_asn: None,
        aggr_ip: None,
    }
}

fn expand_prefixes(
    items: &Vec<serde_json::Value>,
    i: usize,
    sh: &Shared,
    nh: IpAddress,
    announce: bool,
    msg: &str,
) -> (r: Result<Vec<BgpElem>, ParserRisliveError>)
    requires
        i <= items@.len(),
    ensures
        res_view(r) == prefixes_spec(arr_view(items@).skip(i as int), sh@, nh, announce, msg@),
    decreases items@.len() - i,
{
    let ghost tail = arr_view(items@).skip(i as int);
    if i == items.len() {
        proof {
            assert(tail =~= Seq::<JsonData>::empty());
            assert(elems_view(Seq::<BgpElem>::empty()) =~= Seq::<ElemM>::empty());
        }
        return Ok(Vec::new());
    }
    proof {
        assert(tail[0] == arr_view(items@)[i as int]);
        assert(tail.drop_first() =~= arr_view(items@).skip(i as int + 1));
    }
    match value_as_str(&items[i]) {
        None => Err(ParserRisliveError::IncorrectJson(msg.to_owned())),
        Some(ptxt) => {
            if str_eq(ptxt, "eor") {
                return Err(ParserRisliveError::ElemEndOfRibPrefix);
            }
            match parse_prefix_text(ptxt) {
                None => Err(ParserRisliveError::ElemIncorrectPrefix(ptxt.to_owned())),
                Some(np) => {
                    let e = if announce {
                        make_announce(sh, nh, np)
                    } else {
                        make_withdraw(sh, np)
                    };
                    let mut rest = match expand_prefixes(items, i + 1, sh, nh, announce, msg) {
                        Ok(es) => es,
                        Err(err) => {
                            return Err(err);
                        },
                    };
                    let ghost rest_view = elems_view(rest@);
                    rest.insert(0, e);
                    proof {
                        assert(elems_view(rest@) =~= seq![e@] + rest_view);
                    }
                    Ok(rest)
                },
            }
        },
    }
}

fn expand_block(v: &serde_json::Value, sh: &Shared, msg: &str) -> (r: Result<
    Vec<BgpElem>,
    ParserRisliveError,
>)
    ensures
        res_view(r) == block_spec(json_view(*v), sh@, msg@),
{
    let nh_v = match value_get(v, "next_hop") {
        None => {
            return Err(ParserRisliveError::IncorrectJson(msg.to_owned()));
        },
        Some(x) => x,
    };
    let nh_s = match value_as_str(nh_v) {
        None => {
            return Err(ParserRisliveError::IncorrectJson(msg.to_owned()));
        },
        Some(t) => t,
    };
    let nh = match parse_ip_text(nh_s) {
        None => {
            return Err(ParserRisliveError::IncorrectJson(msg.to_owned()));
        },
        Some(ip) => ip,
    };
    let pv = match value_get(v, "prefixes") {
        None => {
            return Err(ParserRisliveError::IncorrectJson(msg.to_owned()));
        },
        Some(x) => x,
    };
    let parr = match value_as_array(pv) {
        None => {
            return Err(ParserRisliveError::IncorrectJson(msg.to_owned()));
        },
        Some(a) => a,
    };
    proof {
        assert(arr_view(parr@).skip(0) =~= arr_view(parr@));
    }
    let mut es = match expand_prefixes(parr, 0, sh, nh, true, msg) {
        Ok(es) => es,
        Err(e) => {
            return Err(e);
        },
    };
    match get_present(v, "withdrawals") {
        None => Ok(es),
        Some(wv) => match value_as_array(wv) {
            None => Err(ParserRisliveError::IncorrectJson(msg.to_owned())),
            Some(warr) => {
                proof {
                    assert(arr_view(warr@).skip(0) =~= arr_view(warr@));
                }
                let mut ws = match expand_prefixes(warr, 0, sh, nh, false, msg) {
                    Ok(ws) => ws,
                    Err(e) => {
                        return Err(e);
                    },
                };
                let ghost es_view = elems_view(es@);
                let ghost ws_view = elems_view(ws@);
                es.append(&mut ws);
                proof {
                    assert(elems_view(es@) =~= es_view + ws_view);
                }
                Ok(es)
            },
        },
    }
}

fn expand_blocks(items: &Vec<serde_json::Value>, i: usize, sh: &Shared, msg: &str) -> (r: Result<
    Vec<BgpElem>,
    ParserRisliveError,
>)
    requires
        i <= items@.len(),
    ensures
        res_view(r) == blocks_spec(arr_view(items@).skip(i as int), sh@, msg@),
    decreases items@.len() - i,
{
    let ghost tail = arr_view(items@).skip(i as int);
    if i == items.len() {
        proof {
            assert(tail =~= Seq::<JsonData>::empty());
            assert(elems_view(Seq::<BgpElem>::empty()) =~= Seq::<ElemM>::empty());
        }
        return Ok(Vec::new());
    }
    proof {
        assert(tail[0] == arr_view(items@)[i as int]);
        assert(tail.drop_first() =~= arr_view(items@).skip(i as int + 1));
    }
    let mut cur = match expand_block(&items[i], sh, msg) {
        Ok(es) => es,
        Err(e) => {
            return Err(e);
        },
    };
    let mut rest = match expand_blocks(items, i + 1, sh, msg) {
        Ok(es) => es,
        Err(e) => {
            return Err(e);
        },
    };
    let ghost cur_view = elems_view(cur@);
    let ghost rest_view = elems_view(rest@);
    cur.append(&mut rest);
    proof {
        assert(elems_view(cur@) =~= cur_view + rest_view);
    }
    Ok(cur)
}

fn decode_update(data: &serde_json::Value, ts: String, peer: &str, pasn_txt: &str, msg: &str) -> (r:
    Result<Vec<BgpElem>, ParserRisliveError>)
    ensures
        res_view(r) == update_spec(json_view(*data), ts@, peer@, pasn_txt@, msg@),
{
    let peer_ip = match parse_ip_text(peer) {
        None => {
            return Err(ParserRisliveError::IncorrectJson(msg.to_owned()));
        },
        Some(x) => x,
    };
    let peer_asn = match parse_u32_dec(pasn_txt) {
        None => {
            return Err(ParserRisliveError::IncorrectJson(msg.to_owned()));
        },
        Some(x) => x,
    };
    let as_path: Option<Vec<PathSegment>> = match get_present(data, "path") {
        None => None,
        Some(pv) => match parse_as_path(pv, msg) {
            Ok(p) => Some(p),
            Err(e) => {
                return Err(e);
            },
        },
    };
    let communities: Option<Vec<Community>> = match get_present(data, "community") {
        None => None,
        Some(cv) => match parse_communities(cv, msg) {
            Ok(cs) => Some(cs),
            Err(e) => {
                return Err(e);
            },
        },
    };
    let origin: Option<Origin> = match get_present(data, "origin") {
        None => None,
        Some(ov) => match value_as_str(ov) {
            None => {
                return Err(ParserRisliveError::IncorrectJson(msg.to_owned()));
            },
            Some(ot) => match parse_origin(ot) {
                Ok(o) => Some(o),
                Err(e) => {
                    return Err(e);
                },
            },
        },
    };
    let med: Option<u32> = match get_present(data, "med") {
        None => None,
        Some(mv) => match value_as_u64(mv) {
            None => {
                return Err(ParserRisliveError::IncorrectJson(msg.to_owned()));
            },
            Some(n) => {
                if n <= 0xFFFF_FFFF {
                    Some(n as u32)
                } else {
                    return Err(ParserRisliveError::IncorrectJson(msg.to_owned()));
                }
            },
        },
    };
    let (aggr_asn, aggr_ip): (Option<u32>, Option<IpAddress>) = match get_present(
        data,
        "aggregator",
    ) {
        None => (None, None),
        Some(av) => match value_as_str(av) {
            None => {
                return Err(ParserRisliveError::IncorrectJson(msg.to_owned()));
            },
            Some(at) => match parse_aggregator(at) {
                Ok(pair) => (Some(pair.0), Some(pair.1)),
                Err(e) => {
                    return Err(e);
                },
            },
        },
    };
    let sh = Shared {
        timestamp: ts,
        peer_ip,
        peer_asn,
        as_path,
        origin,
        med,
        communities,
        aggr_asn,
        aggr_ip,
    };
    match get_present(data, "announcements") {
        None => {
            proof {
                assert(elems_view(Seq::<BgpElem>::empty()) =~= Seq::<ElemM>::empty());
            }
            Ok(Vec::new())
        },
        Some(av) => match value_as_array(av) {
            None => Err(ParserRisliveError::IncorrectJson(msg.to_owned())),
            Some(blocks) => {
                proof {
                    assert(arr_view(blocks@).skip(0) =~= arr_view(blocks@));
                }
                expand_blocks(blocks, 0, &sh, msg)
            },
        },
    }
}

fn decode_data(data: &serde_json::Value, msg: &str) -> (r: Result<Vec<BgpElem>, ParserRisliveError>)
    ensures
        res_view(r) == data_spec(json_view(*data), msg@),
{
    let tsv = match value_get(data, "timestamp") {
        None => {
            return Err(ParserRisliveError::IncorrectJson(msg.to_owned()));
        },
        Some(x) => x,
    };
    let ts = match value_num_string(tsv) {
        None => {
            return Err(ParserRisliveError::IncorrectJson(msg.to_owned()));
        },
        Some(t) => t,
    };
    let peerv = match value_get(data, "peer") {
        None => {
            return Err(ParserRisliveError::IncorrectJson(msg.to_owned()));
        },
        Some(x) => x,
    };
    let peer = match value_as_str(peerv) {
        None => {
            return Err(ParserRisliveError::IncorrectJson(msg.to_owned()));
        },
        Some(p) => p,
    };
    let pasnv = match value_get(data, "peer_asn") {
        None => {
            return Err(ParserRisliveError::IncorrectJson(msg.to_owned()));
        },
        Some(x) => x,
    };
    let pasn = match value_as_str(pasnv) {
        None => {
            return Err(ParserRisliveError::IncorrectJson(msg.to_owned()));
        },
        Some(p) => p,
    };
    match get_present(data, "type") {
        None => {
            proof {
                assert(elems_view(Seq::<BgpElem>::empty()) =~= Seq::<ElemM>::empty());
            }
            Ok(Vec::new())
        },
        Some(tv) => match value_as_str(tv) {
            None => Err(ParserRisliveError::IncorrectJson(msg.to_owned())),
            Some(t) => {
                if str_eq(t, "UPDATE") {
                    decode_update(data, ts, peer, pasn, msg)
                } else {
                    proof {
                        assert(elems_view(Seq::<BgpElem>::empty()) =~= Seq::<ElemM>::empty());
                    }
                    Ok(Vec::new())
                }
            },
        },
    }
}

/// Decodes one RIS-Live message text into its flat routing elements.
///
/// The result is exactly `message_spec` of the text: an ordered element per
/// announced or withdrawn prefix on success, and otherwise the transport
/// error, semantic error, or end-of-table signal that `message_spec`
/// assigns, with nothing partial ever returned.
pub fn parse_ris_live_message(msg_str: &str) -> (r: Result<Vec<BgpElem>, ParserRisliveError>)
    ensures
        res_view(r) == message_spec(msg_str@),
{
    let v = match json_parse(msg_str) {
        None => {
            return Err(ParserRisliveError::IncorrectJson(msg_str.to_owned()));
        },
        Some(v) => v,
    };
    let tv = match value_get(&v, "type") {
        None => {
            return Err(ParserRisliveError::IncorrectJson(msg_str.to_owned()));
        },
        Some(x) => x,
    };
    let t = match value_as_str(tv) {
        None => {
            return Err(ParserRisliveError::IncorrectJson(msg_str.to_owned()));
        },
        Some(t) => t,
    };
    if !str_eq(t, "ris_message") {
        proof {
            assert(elems_view(Seq::<BgpElem>::empty()) =~= Seq::<ElemM>::empty());
        }
        return Ok(Vec::new());
    }
    let data = match value_get(&v, "data") {
        None => {
            return Err(ParserRisliveError::IncorrectJson(msg_str.to_owned()));
        },
        Some(d) => d,
    };
    decode_data(data, msg_str)
}

} // verus!
