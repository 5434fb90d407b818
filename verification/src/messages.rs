//! The four attribute normalizers: AS-path, community list, origin token,
//! and aggregator text.
use vstd::prelude::*;
use vstd::string::StrSliceExecFns;
use crate::elements::{Community, Origin, PathSegment, SegM, segs_view};
use crate::error::{err_view, ErrM, ParserRisliveError};
use crate::json::{arr_view, json_view, num_u64_of, value_as_array, value_as_u64, JsonData};
use crate::net::{ip_of, parse_ip_text, IpAddress};
use crate::text::{dec_u32_of, eq_ignore_case, parse_u32_dec, str_eq_ignore_case};

verus! {

/// The origin a token normalizes to: `igp`, `egp` or `incomplete` up to
/// ASCII case; any other token is a semantic error naming it.
pub open spec fn origin_spec(t: Seq<char>) -> Result<Origin, ErrM> {
    if eq_ignore_case(t, "igp"@) {
        Ok(Origin::IGP)
    } else if eq_ignore_case(t, "egp"@) {
        Ok(Origin::EGP)
    } else if eq_ignore_case(t, "incomplete"@) {
        Ok(Origin::INCOMPLETE)
    } else {
        Err(ErrM::UnknownOrigin(t))
    }
}

/// Normalizes an origin token.
pub fn parse_origin(o: &str) -> (r: Result<Origin, ParserRisliveError>)
    ensures
        err_view(r) == origin_spec(o@),
{
    if str_eq_ignore_case(o, "igp") {
        Ok(Origin::IGP)
    } else if str_eq_ignore_case(o, "egp") {
        Ok(Origin::EGP)
    } else if str_eq_ignore_case(o, "incomplete") {
        Ok(Origin::INCOMPLETE)
    } else {
        Err(ParserRisliveError::ElemUnknownOriginType(o.to_owned()))
    }
}

/// How many colons a text holds.
pub open spec fn colon_count(s: Seq<char>) -> int
    decreases s.len(),
{
    if s.len() == 0 {
        0
    } else {
        colon_count(s.drop_last()) + if s.last() == ':' {
            1int
        } else {
            0int
        }
    }
}

/// `k` is the position of the first colon.
pub open spec fn first_colon_at(s: Seq<char>, k: int) -> bool {
    0 <= k < s.len() && s[k] == ':' && (forall|i: int| 0 <= i < k ==> s[i] != ':')
}

/// What an aggregator text normalizes to: exactly two colon-delimited parts,
/// the first an ASN, the second an IP address; any other shape is a semantic
/// error carrying the raw text.
pub open spec fn aggregator_spec(t: Seq<char>) -> Result<(u32, IpAddress), ErrM> {
    if colon_count(t) != 1 {
        Err(ErrM::IncorrectAggregator(t))
    } else {
        let k = choose|k: int| first_colon_at(t, k);
        match dec_u32_of(t.take(k)) {
            None => Err(ErrM::IncorrectAggregator(t)),
            Some(a) => match ip_of(t.skip(k + 1)) {
                None => Err(ErrM::IncorrectAggregator(t)),
                Some(ip) => Ok((a, ip)),
            },
        }
    }
}

proof fn lemma_colon_count_step(s: Seq<char>, i: int)
    requires
        0 <= i < s.len(),
    ensures
        colon_count(s.take(i + 1)) == colon_count(s.take(i)) + if s[i] == ':' {
            1int
        } else {
            0int
        },
{
    assert(s.take(i + 1).drop_last() =~= s.take(i));
    assert(s.take(i + 1).last() == s[i]);
}

/// Normalizes an aggregator text into its ASN and IP address.
pub fn parse_aggregator(s: &str) -> (r: Result<(u32, IpAddress), ParserRisliveError>)
    ensures
        err_view(r) == aggregator_spec(s@),
{
    let n = s.unicode_len();
    let mut i: usize = 0;
    let mut cnt: usize = 0;
    let mut first: usize = 0;
    while i < n
        invariant
            i <= n,
            n == s@.len(),
            cnt <= i,
            cnt == colon_count(s@.take(i as int)),
            cnt == 0 ==> (forall|j: int| 0 <= j < i ==> s@[j] != ':'),
            cnt > 0 ==> first < i && s@[first as int] == ':' && (forall|j: int|
                0 <= j < first ==> s@[j] != ':'),
        decreases n - i,
    {
        let c = s.get_char(i);
        proof {
            lemma_colon_count_step(s@, i as int);
        }
        if c == ':' {
            if cnt == 0 {
                first = i;
            }
            cnt = cnt + 1;
        }
        i = i + 1;
    }
    proof {
        assert(s@.take(n as int) =~= s@);
    }
    if cnt != 1 {
        return Err(ParserRisliveError::ElemIncorrectAggregator(s.to_owned()));
    }
    proof {
        assert(first_colon_at(s@, first as int));
        let kk = choose|k: int| first_colon_at(s@, k);
        assert(first_colon_at(s@, kk));
        if kk < first as int {
            assert(s@[kk] == ':');
            assert(false);
        }
        if (first as int) < kk {
            assert(s@[first as int] == ':');
            assert(false);
        }
    }
    let asn_part = s.substring_char(0, first);
    let ip_part = s.substring_char(first + 1, n);
    proof {
        assert(asn_part@ =~= s@.take(first as int));
        assert(ip_part@ =~= s@.skip(first as int + 1));
    }
    match parse_u32_dec(asn_part) {
        None => Err(ParserRisliveError::ElemIncorrectAggregator(s.to_owned())),
        Some(a) => match parse_ip_text(ip_part) {
            None => Err(ParserRisliveError::ElemIncorrectAggregator(s.to_owned())),
            Some(ip) => Ok((a, ip)),
        },
    }
}

/// What one AS-path entry normalizes to: a bare integer is a single hop, a
/// nested integer list is an AS-SET segment; any other shape fails the whole
/// message.
pub open spec fn path_item_spec(d: JsonData, s: Seq<char>) -> Result<SegM, ErrM> {
    match num_u64_of(d) {
        Some(n) => if n <= u32::MAX {
            Ok(SegM::Asn(n as u32))
        } else {
            Err(ErrM::IncorrectJson(s))
        },
        None => match d {
            JsonData::Arr(ms) => match set_members_spec(ms, s) {
                Ok(members) => Ok(SegM::AsSet(members)),
                Err(e) => Err(e),
            },
            _ => Err(ErrM::IncorrectJson(s)),
        },
    }
}

/// The members of an AS-SET entry: each one an integer fitting 32 bits.
pub open spec fn set_members_spec(items: Seq<JsonData>, s: Seq<char>) -> Result<Seq<u32>, ErrM>
    decreases items.len(),
{
    if items.len() == 0 {
        Ok(Seq::empty())
    } else {
        match num_u64_of(items[0]) {
            Some(n) => if n <= u32::MAX {
                match set_members_spec(items.drop_first(), s) {
                    Ok(rest) => Ok(seq![n as u32] + rest),
                    Err(e) => Err(e),
                }
            } else {
                Err(ErrM::IncorrectJson(s))
            },
            None => Err(ErrM::IncorrectJson(s)),
        }
    }
}

/// The segments an AS-path array normalizes to, in input order.
pub open spec fn path_items_spec(items: Seq<JsonData>, s: Seq<char>) -> Result<Seq<SegM>, ErrM>
    decreases items.len(),
{
    if items.len() == 0 {
        Ok(Seq::empty())
    } else {
        match path_item_spec(items[0], s) {
            Err(e) => Err(e),
            Ok(seg) => match path_items_spec(items.drop_first(), s) {
                Err(e) => Err(e),
                Ok(rest) => Ok(seq![seg] + rest),
            },
        }
    }
}

/// What the AS-path attribute normalizes to; anything but an array fails the
/// whole message.
pub open spec fn path_spec(d: JsonData, s: Seq<char>) -> Result<Seq<SegM>, ErrM> {
    match d {
        JsonData::Arr(items) => path_items_spec(items, s),
        _ => Err(ErrM::IncorrectJson(s)),
    }
}

/// Normalizes the AS-path attribute of a message whose text is `msg`.
pub fn parse_as_path(v: &serde_json::Value, msg: &str) -> (r: Result<
    Vec<PathSegment>,
    ParserRisliveError,
>)
    ensures
        match r {
            Ok(p) => path_spec(json_view(*v), msg@) == Ok::<Seq<SegM>, ErrM>(segs_view(p@)),
            Err(e) => path_spec(json_view(*v), msg@) == Err::<Seq<SegM>, ErrM>(e@),
        },
{
    match value_as_array(v) {
        None => Err(ParserRisliveError::IncorrectJson(msg.to_owned())),
        Some(items) => {
            proof {
                assert(arr_view(items@).skip(0) =~= arr_view(items@));
            }
            parse_path_items(items, 0, msg)
        },
    }
}

fn parse_path_items(items: &Vec<serde_json::Value>, i: usize, msg: &str) -> (r: Result<
    Vec<PathSegment>,
    ParserRisliveError,
>)
    requires
        i <= items@.len(),
    ensures
        match r {
            Ok(p) => path_items_spec(arr_view(items@).skip(i as int), msg@) == Ok::<
                Seq<SegM>,
                ErrM,
            >(segs_view(p@)),
            Err(e) => path_items_spec(arr_view(items@).skip(i as int), msg@) == Err::<
                Seq<SegM>,
                ErrM,
            >(e@),
        },
    decreases items@.len() - i,
{
    let ghost tail = arr_view(items@).skip(i as int);
    if i == items.len() {
        proof {
            assert(tail =~= Seq::<JsonData>::empty());
            assert(segs_view(Seq::<PathSegment>::empty()) =~= Seq::<SegM>::empty());
        }
        return Ok(Vec::new());
    }
    proof {
        assert(tail[0] == arr_view(items@)[i as int]);
        assert(tail.drop_first() =~= arr_view(items@).skip(i as int + 1));
    }
    let seg = match parse_path_item(&items[i], msg) {
        Ok(sg) => sg,
        Err(e) => {
            return Err(e);
        },
    };
    let mut rest = match parse_path_items(items, i + 1, msg) {
        Ok(p) => p,
        Err(e) => {
            return Err(e);
        },
    };
    let ghost rest_view = segs_view(rest@);
    rest.insert(0, seg);
    proof {
        assert(segs_view(rest@) =~= seq![seg@] + rest_view);
    }
    Ok(rest)
}

fn parse_path_item(v: &serde_json::Value, msg: &str) -> (r: Result<
    PathSegment,
    ParserRisliveError,
>)
    ensures
        match r {
            Ok(seg) => path_item_spec(json_view(*v), msg@) == Ok::<SegM, ErrM>(seg@),
            Err(e) => path_item_spec(json_view(*v), msg@) == Err::<SegM, ErrM>(e@),
        },
{
    match value_as_u64(v) {
        Some(n) => {
            if n <= 0xFFFF_FFFF {
                Ok(PathSegment::Asn(n as u32))
            } else {
                Err(ParserRisliveError::IncorrectJson(msg.to_owned()))
            }
        },
        None => match value_as_array(v) {
            None => Err(ParserRisliveError::IncorrectJson(msg.to_owned())),
            Some(ms) => {
                proof {
                    assert(arr_view(ms@).skip(0) =~= arr_view(ms@));
                }
                match parse_set_members(ms, 0, msg) {
                    Ok(members) => Ok(PathSegment::AsSet(members)),
                    Err(e) => Err(e),
                }
            },
        },
    }
}

fn parse_set_members(items: &Vec<serde_json::Value>, i: usize, msg: &str) -> (r: Result<
    Vec<u32>,
    ParserRisliveError,
>)
    requires
        i <= items@.len(),
    ensures
        match r {
            Ok(ms) => set_members_spec(arr_view(items@).skip(i as int), msg@) == Ok::<
                Seq<u32>,
                ErrM,
            >(ms@),
            Err(e) => set_members_spec(arr_view(items@).skip(i as int), msg@) == Err::<
                Seq<u32>,
                ErrM,
            >(e@),
        },
    decreases items@.len() - i,
{
    let ghost tail = arr_view(items@).skip(i as int);
    if i == items.len() {
        proof {
            assert(tail =~= Seq::<JsonData>::empty());
        }
        return Ok(Vec::new());
    }
    proof {
        assert(tail[0] == arr_view(items@)[i as int]);
        assert(tail.drop_first() =~= arr_view(items@).skip(i as int + 1));
    }
    match value_as_u64(&items[i]) {
        Some(n) => {
            if n <= 0xFFFF_FFFF {
                let mut rest = match parse_set_members(items, i + 1, msg) {
                    Ok(ms) => ms,
                    Err(e) => {
                        return Err(e);
                    },
                };
                let ghost rest_view = rest@;
                rest.insert(0, n as u32);
                proof {
                    assert(rest@ =~= seq![n as u32] + rest_view);
                }
                Ok(rest)
            } else {
                Err(ParserRisliveError::IncorrectJson(msg.to_owned()))
            }
        },
        None => Err(ParserRisliveError::IncorrectJson(msg.to_owned())),
    }
}

/// What one community entry normalizes to: a 2-tuple of integers becomes a
/// custom community; a tuple of any other arity is a semantic error naming
/// that arity; anything else fails the whole message.
pub open spec fn comm_item_spec(d: JsonData, s: Seq<char>) -> Result<Community, ErrM> {
    match d {
        JsonData::Arr(pair) => if pair.len() != 2 {
            Err(ErrM::IncorrectCommunity(pair.len() as int))
        } else {
            match num_u64_of(pair[0]) {
                Some(a) => if a <= u32::MAX {
                    match num_u64_of(pair[1]) {
                        Some(val) => if val <= u16::MAX {
                            Ok(Community { asn: a as u32, value: val as u16 })
                        } else {
                            Err(ErrM::IncorrectJson(s))
                        },
                        None => Err(ErrM::IncorrectJson(s)),
                    }
                } else {
                    Err(ErrM::IncorrectJson(s))
                },
                None => Err(ErrM::IncorrectJson(s)),
            }
        },
        _ => Err(ErrM::IncorrectJson(s)),
    }
}

/// The communities a community array normalizes to, in input order.
pub open spec fn comm_items_spec(items: Seq<JsonData>, s: Seq<char>) -> Result<
    Seq<Community>,
    ErrM,
>
    decreases items.len(),
{
    if items.len() == 0 {
        Ok(Seq::empty())
    } else {
        match comm_item_spec(items[0], s) {
            Err(e) => Err(e),
            Ok(c) => match comm_items_spec(items.drop_first(), s) {
                Err(e) => Err(e),
                Ok(rest) => Ok(seq![c] + rest),
            },
        }
    }
}

/// What the community attribute normalizes to; anything but an array fails
/// the whole message.
pub open spec fn community_spec(d: JsonData, s: Seq<char>) -> Result<Seq<Community>, ErrM> {
    match d {
        JsonData::Arr(items) => comm_items_spec(items, s),
        _ => Err(ErrM::IncorrectJson(s)),
    }
}

/// Normalizes the community attribute of a message whose text is `msg`.
pub fn parse_communities(v: &serde_json::Value, msg: &str) -> (r: Result<
    Vec<Community>,
    ParserRisliveError,
>)
    ensures
        match r {
            Ok(cs) => community_spec(json_view(*v), msg@) == Ok::<Seq<Community>, ErrM>(cs@),
            Err(e) => community_spec(json_view(*v), msg@) == Err::<Seq<Community>, ErrM>(e@),
        },
{
    match value_as_array(v) {
        None => Err(ParserRisliveError::IncorrectJson(msg.to_owned())),
        Some(items) => {
            proof {
                assert(arr_view(items@).skip(0) =~= arr_view(items@));
            }
            parse_comm_items(items, 0, msg)
        },
    }
}

fn parse_comm_items(items: &Vec<serde_json::Value>, i: usize, msg: &str) -> (r: Result<
    Vec<Community>,
    ParserRisliveError,
>)
    requires
        i <= items@.len(),
    ensures
        match r {
            Ok(cs) => comm_items_spec(arr_view(items@).skip(i as int), msg@) == Ok::<
                Seq<Community>,
                ErrM,
            >(cs@),
            Err(e) => comm_items_spec(arr_view(items@).skip(i as int), msg@) == Err::<
                Seq<Community>,
                ErrM,
            >(e@),
        },
    decreases items@.len() - i,
{
    let ghost tail = arr_view(items@).skip(i as int);
    if i == items.len() {
        proof {
            assert(tail =~= Seq::<JsonData>::empty());
        }
        return Ok(Vec::new());
    }
    proof {
        assert(tail[0] == arr_view(items@)[i as int]);
        assert(tail.drop_first() =~= arr_view(items@).skip(i as int + 1));
    }
    let c = match parse_comm_item(&items[i], msg) {
        Ok(c) => c,
        Err(e) => {
            return Err(e);
        },
    };
    let mut rest = match parse_comm_items(items, i + 1, msg) {
        Ok(cs) => cs,
        Err(e) => {
            return Err(e);
        },
    };
    let ghost rest_view = rest@;
    rest.insert(0, c);
    proof {
        assert(rest@ =~= seq![c] + rest_view);
    }
    Ok(rest)
}

fn parse_comm_item(v: &serde_json::Value, msg: &str) -> (r: Result<Community, ParserRisliveError>)
    ensures
        match r {
            Ok(c) => comm_item_spec(json_view(*v), msg@) == Ok::<Community, ErrM>(c),
            Err(e) => comm_item_spec(json_view(*v), msg@) == Err::<Community, ErrM>(e@),
        },
{
    match value_as_array(v) {
        None => Err(ParserRisliveError::IncorrectJson(msg.to_owned())),
        Some(pair) => {
            if pair.len() != 2 {
                return Err(ParserRisliveError::ElemIncorrectCommunity(pair.len()));
            }
            proof {
                assert(arr_view(pair@)[0] == json_view(pair@[0]));
                assert(arr_view(pair@)[1] == json_view(pair@[1]));
            }
            match value_as_u64(&pair[0]) {
                Some(a) => {
                    if a <= 0xFFFF_FFFF {
                        match value_as_u64(&pair[1]) {
                            Some(val) => {
                                if val <= 0xFFFF {
                                    Ok(Community { asn: a as u32, value: val as u16 })
                                } else {
                                    Err(ParserRisliveError::IncorrectJson(msg.to_owned()))
                                }
                            },
                            None => Err(ParserRisliveError::IncorrectJson(msg.to_owned())),
                        }
                    } else {
                        Err(ParserRisliveError::IncorrectJson(msg.to_owned()))
                    }
                },
                None => Err(ParserRisliveError::IncorrectJson(msg.to_owned())),
            }
        },
    }
}

} // verus!
