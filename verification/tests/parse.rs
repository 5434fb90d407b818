use ris_live_rs::error::ParserRisliveError;
use ris_live_rs::parse_ris_live_message;
use ris_live_rs::{BgpElem, Community, ElemType, IpAddress, NetPrefix, Origin, PathSegment};

#[test]
fn test_ris_live_msg() {
    let msg_str = r#"
        {"type": "ris_message","data":{"timestamp":1636247118.76,"peer":"2001:7f8:24::82","peer_asn":"58299","id":"20-5761-238131559","host":"rrc20","type":"UPDATE","path":[58299,49981,397666],"origin":"igp","announcements":[{"next_hop":"2001:7f8:24::82","prefixes":["2602:fd9e:f00::/40"]},{"next_hop":"fe80::768e:f8ff:fea6:b2c4","prefixes":["2602:fd9e:f00::/40"], "withdrawals": ["1.1.1.0/24", "8.8.8.0/24"]}],"raw":"FFFFFFFFFFFFFFFFFFFFFFFFFFFFFFFF005A02000000434001010040020E02030000E3BB0000C33D00061162800E2B00020120200107F8002400000000000000000082FE80000000000000768EF8FFFEA6B2C400282602FD9E0F"}}
        "#;
    let msg = parse_ris_live_message(&msg_str).unwrap();
    for elem in msg {
        println!("{:?}", elem);
    }
}

#[test]
fn test_error_message() {
    let msg_str = r#"
        {"type": "ris_message","data":{"timestamp":1636342486.17,"peer":"37.49.237.175","peer_asn":"199524","id":"21-587-22045871","host":"rrc21","type":"UPDATE","path":[199524,1299,3356,13904,13904,13904,13904,13904,13904],"origin":"igp","aggregator":"65000:8.42.232.1","announcements":[{"next_hop":"37.49.237.175","prefixes":["64.68.236.0/22"]}]}}
        "#;
    let msg = parse_ris_live_message(&msg_str).unwrap();
    for elem in msg {
        println!("{:?}", elem);
    }
}

#[test]
fn test_error_message_2() {
    let msg_str = r#"
        {"type": "ris_message","data":{"timestamp":1636339375.83,"peer":"37.49.236.1","peer_asn":"8218","id":"21-594-37970252","host":"rrc21"}}
        "#;
    let msg = parse_ris_live_message(&msg_str).unwrap();
    for elem in msg {
        println!("{:?}", elem);
    }
}

/// The end-to-end fixture: two blocks sharing one update's attributes expand
/// into two announces followed by two withdraws, blocks in input order.
#[test]
fn end_to_end_fixture() {
    let msg_str = r#"{"type": "ris_message","data":{"timestamp":1636247118.76,"peer":"2001:7f8:24::82","peer_asn":"58299","type":"UPDATE","path":[58299,49981,397666],"origin":"igp","announcements":[{"next_hop":"2001:7f8:24::82","prefixes":["2602:fd9e:f00::/40"]},{"next_hop":"fe80::768e:f8ff:fea6:b2c4","prefixes":["2602:fd9e:f00::/40"], "withdrawals": ["1.1.1.0/24", "8.8.8.0/24"]}]}}"#;
    let elems = parse_ris_live_message(msg_str).unwrap();
    assert_eq!(elems.len(), 4);

    let peer = IpAddress::V6(0x2001_07f8_0024_0000_0000_0000_0000_0082);
    let nh_a = IpAddress::V6(0x2001_07f8_0024_0000_0000_0000_0000_0082);
    let nh_b = IpAddress::V6(0xfe80_0000_0000_0000_768e_f8ff_fea6_b2c4);
    let p1 = NetPrefix { addr: IpAddress::V6(0x2602_fd9e_0f00_0000_0000_0000_0000_0000), len: 40 };
    let w1 = NetPrefix { addr: IpAddress::V4(0x0101_0100), len: 24 };
    let w2 = NetPrefix { addr: IpAddress::V4(0x0808_0800), len: 24 };

    assert_eq!(elems[0].elem_type, ElemType::ANNOUNCE);
    assert_eq!(elems[0].prefix, p1);
    assert_eq!(elems[0].next_hop, Some(nh_a));
    assert_eq!(elems[1].elem_type, ElemType::ANNOUNCE);
    assert_eq!(elems[1].prefix, p1);
    assert_eq!(elems[1].next_hop, Some(nh_b));
    assert_eq!(elems[2].elem_type, ElemType::WITHDRAW);
    assert_eq!(elems[2].prefix, w1);
    assert_eq!(elems[3].elem_type, ElemType::WITHDRAW);
    assert_eq!(elems[3].prefix, w2);

    for e in &elems {
        assert_eq!(e.peer_ip, peer);
        assert_eq!(e.peer_asn, 58299);
        assert_eq!(e.timestamp, "1636247118.76");
    }

    // announce elements share the update's attributes
    let path = vec![
        PathSegment::Asn(58299),
        PathSegment::Asn(49981),
        PathSegment::Asn(397666),
    ];
    assert_eq!(elems[0].as_path, Some(path.clone()));
    assert_eq!(elems[0].origin, Some(Origin::IGP));
    assert_eq!(elems[1].as_path, Some(path));

    // withdraw elements carry no path attributes at all
    assert_eq!(elems[2].next_hop, None);
    assert_eq!(elems[2].as_path, None);
    assert_eq!(elems[2].origin, None);
    assert_eq!(elems[2].med, None);
    assert_eq!(elems[2].communities, None);
    assert_eq!(elems[2].aggr_asn, None);
    assert_eq!(elems[2].aggr_ip, None);
}

/// A message with zero announcement blocks and no optional attributes
/// decodes to an empty list without error.
#[test]
fn empty_update_decodes_to_empty_list() {
    let msg = r#"{"type":"ris_message","data":{"timestamp":1.5,"peer":"1.2.3.4","peer_asn":"1","type":"UPDATE"}}"#;
    let elems = parse_ris_live_message(msg).unwrap();
    assert!(elems.is_empty());
}

#[test]
fn empty_announcement_array_decodes_to_empty_list() {
    let msg = r#"{"type":"ris_message","data":{"timestamp":1.5,"peer":"1.2.3.4","peer_asn":"1","type":"UPDATE","announcements":[]}}"#;
    let elems = parse_ris_live_message(msg).unwrap();
    assert!(elems.is_empty());
}

/// The sentinel prefix literal yields the end-of-table signal, never a
/// semantic error, and no elements.
#[test]
fn eor_prefix_yields_end_of_rib() {
    let msg = r#"{"type":"ris_message","data":{"timestamp":1.0,"peer":"1.2.3.4","peer_asn":"1","type":"UPDATE","announcements":[{"next_hop":"1.2.3.4","prefixes":["eor"]}]}}"#;
    let err = parse_ris_live_message(msg).unwrap_err();
    assert_eq!(err, ParserRisliveError::ElemEndOfRibPrefix);
}

#[test]
fn eor_in_withdrawals_yields_end_of_rib() {
    let msg = r#"{"type":"ris_message","data":{"timestamp":1.0,"peer":"1.2.3.4","peer_asn":"1","type":"UPDATE","announcements":[{"next_hop":"1.2.3.4","prefixes":["10.0.0.0/8"],"withdrawals":["eor"]}]}}"#;
    let err = parse_ris_live_message(msg).unwrap_err();
    assert_eq!(err, ParserRisliveError::ElemEndOfRibPrefix);
}

/// A nested path entry becomes an AS-SET segment whose member order is
/// ignored by segment comparison.
#[test]
fn nested_path_entry_is_set_segment() {
    let msg = r#"{"type":"ris_message","data":{"timestamp":1.0,"peer":"1.2.3.4","peer_asn":"58299","type":"UPDATE","path":[58299,[49981,397666]],"announcements":[{"next_hop":"1.2.3.4","prefixes":["10.0.0.0/8"]}]}}"#;
    let elems = parse_ris_live_message(msg).unwrap();
    assert_eq!(elems.len(), 1);
    let path = elems[0].as_path.clone().unwrap();
    assert_eq!(path.len(), 2);
    assert_eq!(path[0], PathSegment::Asn(58299));
    match &path[1] {
        PathSegment::AsSet(ms) => assert_eq!(ms.len(), 2),
        other => panic!("expected a set segment, got {:?}", other),
    }
    let reversed = PathSegment::AsSet(vec![397666, 49981]);
    let same = PathSegment::AsSet(vec![49981, 397666]);
    let different = PathSegment::AsSet(vec![49981, 1]);
    assert!(ris_live_rs::segments_match(&path[1], &reversed));
    assert!(ris_live_rs::segments_match(&path[1], &same));
    assert!(!ris_live_rs::segments_match(&path[1], &different));
    assert!(!ris_live_rs::segments_match(&path[0], &path[1]));
}

/// A well-formed aggregator lands on every announce element; a malformed one
/// is a semantic error; an absent one leaves the fields empty.
#[test]
fn aggregator_cases() {
    let with = r#"{"type":"ris_message","data":{"timestamp":1.0,"peer":"1.2.3.4","peer_asn":"1","type":"UPDATE","aggregator":"65000:8.42.232.1","announcements":[{"next_hop":"1.2.3.4","prefixes":["10.0.0.0/8"]}]}}"#;
    let elems = parse_ris_live_message(with).unwrap();
    assert_eq!(elems[0].aggr_asn, Some(65000));
    assert_eq!(elems[0].aggr_ip, Some(IpAddress::V4(0x082a_e801)));

    let garbage = r#"{"type":"ris_message","data":{"timestamp":1.0,"peer":"1.2.3.4","peer_asn":"1","type":"UPDATE","aggregator":"garbage","announcements":[{"next_hop":"1.2.3.4","prefixes":["10.0.0.0/8"]}]}}"#;
    let err = parse_ris_live_message(garbage).unwrap_err();
    assert_eq!(
        err,
        ParserRisliveError::ElemIncorrectAggregator("garbage".to_string())
    );

    let absent = r#"{"type":"ris_message","data":{"timestamp":1.0,"peer":"1.2.3.4","peer_asn":"1","type":"UPDATE","announcements":[{"next_hop":"1.2.3.4","prefixes":["10.0.0.0/8"]}]}}"#;
    let elems = parse_ris_live_message(absent).unwrap();
    assert_eq!(elems[0].aggr_asn, None);
    assert_eq!(elems[0].aggr_ip, None);
}

/// Any top-level kind other than the update-bearing kind decodes to an empty
/// list, recognized or not.
#[test]
fn other_top_level_kinds_decode_to_empty_list() {
    assert!(parse_ris_live_message(r#"{"type":"pong"}"#).unwrap().is_empty());
    assert!(parse_ris_live_message(r#"{"type":"ris_error","data":{"message":"x"}}"#)
        .unwrap()
        .is_empty());
    assert!(parse_ris_live_message(r#"{"type":"some_future_kind","data":{}}"#)
        .unwrap()
        .is_empty());
}

#[test]
fn non_update_payload_type_decodes_to_empty_list() {
    let msg = r#"{"type":"ris_message","data":{"timestamp":1.0,"peer":"1.2.3.4","peer_asn":"1","type":"KEEPALIVE"}}"#;
    assert!(parse_ris_live_message(msg).unwrap().is_empty());
}

/// A peer ASN that is not a number is a transport error carrying the whole
/// text, and no elements are returned.
#[test]
fn bad_peer_asn_is_transport_error() {
    let msg = r#"{"type":"ris_message","data":{"timestamp":1.0,"peer":"1.2.3.4","peer_asn":"not-a-number","type":"UPDATE","announcements":[{"next_hop":"1.2.3.4","prefixes":["10.0.0.0/8"]}]}}"#;
    match parse_ris_live_message(msg).unwrap_err() {
        ParserRisliveError::IncorrectJson(text) => assert_eq!(text, msg),
        other => panic!("expected a transport error, got {:?}", other),
    }
}

#[test]
fn malformed_json_is_transport_error() {
    let msg = "{not json";
    match parse_ris_live_message(msg).unwrap_err() {
        ParserRisliveError::IncorrectJson(text) => assert_eq!(text, msg),
        other => panic!("expected a transport error, got {:?}", other),
    }
}

#[test]
fn bad_peer_ip_is_transport_error() {
    let msg = r#"{"type":"ris_message","data":{"timestamp":1.0,"peer":"not-an-ip","peer_asn":"1","type":"UPDATE"}}"#;
    match parse_ris_live_message(msg).unwrap_err() {
        ParserRisliveError::IncorrectJson(text) => assert_eq!(text, msg),
        other => panic!("expected a transport error, got {:?}", other),
    }
}

#[test]
fn bad_next_hop_is_transport_error() {
    let msg = r#"{"type":"ris_message","data":{"timestamp":1.0,"peer":"1.2.3.4","peer_asn":"1","type":"UPDATE","announcements":[{"next_hop":"nope","prefixes":["10.0.0.0/8"]}]}}"#;
    match parse_ris_live_message(msg).unwrap_err() {
        ParserRisliveError::IncorrectJson(_) => {}
        other => panic!("expected a transport error, got {:?}", other),
    }
}

#[test]
fn bad_prefix_is_semantic_error() {
    let msg = r#"{"type":"ris_message","data":{"timestamp":1.0,"peer":"1.2.3.4","peer_asn":"1","type":"UPDATE","announcements":[{"next_hop":"1.2.3.4","prefixes":["10.0.0.0/8","zork"]}]}}"#;
    let err = parse_ris_live_message(msg).unwrap_err();
    assert_eq!(err, ParserRisliveError::ElemIncorrectPrefix("zork".to_string()));
}

#[test]
fn bad_origin_token_is_semantic_error() {
    let msg = r#"{"type":"ris_message","data":{"timestamp":1.0,"peer":"1.2.3.4","peer_asn":"1","type":"UPDATE","origin":"wibble"}}"#;
    let err = parse_ris_live_message(msg).unwrap_err();
    assert_eq!(err, ParserRisliveError::ElemUnknownOriginType("wibble".to_string()));
}

#[test]
fn wrong_arity_community_is_semantic_error() {
    let msg = r#"{"type":"ris_message","data":{"timestamp":1.0,"peer":"1.2.3.4","peer_asn":"1","type":"UPDATE","community":[[65000,100,7]]}}"#;
    let err = parse_ris_live_message(msg).unwrap_err();
    assert_eq!(err, ParserRisliveError::ElemIncorrectCommunity(3));
}

#[test]
fn communities_and_med_are_carried() {
    let msg = r#"{"type":"ris_message","data":{"timestamp":1.0,"peer":"1.2.3.4","peer_asn":"1","type":"UPDATE","community":[[65000,100],[64512,1]],"med":50,"announcements":[{"next_hop":"1.2.3.4","prefixes":["10.0.0.0/8"]}]}}"#;
    let elems = parse_ris_live_message(msg).unwrap();
    assert_eq!(elems.len(), 1);
    assert_eq!(
        elems[0].communities,
        Some(vec![
            Community { asn: 65000, value: 100 },
            Community { asn: 64512, value: 1 },
        ])
    );
    assert_eq!(elems[0].med, Some(50));
}

#[test]
fn origin_match_is_case_insensitive() {
    for (token, expected) in [
        ("igp", Origin::IGP),
        ("IGP", Origin::IGP),
        ("Igp", Origin::IGP),
        ("EGP", Origin::EGP),
        ("incomplete", Origin::INCOMPLETE),
        ("INCOMPLETE", Origin::INCOMPLETE),
    ] {
        let msg = format!(
            r#"{{"type":"ris_message","data":{{"timestamp":1.0,"peer":"1.2.3.4","peer_asn":"1","type":"UPDATE","origin":"{}","announcements":[{{"next_hop":"1.2.3.4","prefixes":["10.0.0.0/8"]}}]}}}}"#,
            token
        );
        let elems = parse_ris_live_message(&msg).unwrap();
        assert_eq!(elems[0].origin, Some(expected));
    }
}

/// Null-valued optional fields count as absent, exactly like missing ones.
#[test]
fn null_optional_fields_count_as_absent() {
    let msg = r#"{"type":"ris_message","data":{"timestamp":1.0,"peer":"1.2.3.4","peer_asn":"1","type":"UPDATE","path":null,"community":null,"origin":null,"med":null,"aggregator":null,"announcements":null}}"#;
    let elems = parse_ris_live_message(msg).unwrap();
    assert!(elems.is_empty());
}

/// Counting across blocks: total output length is the sum of announced and
/// withdrawn prefix counts, and order follows the blocks.
#[test]
fn element_count_sums_blocks() {
    let msg = r#"{"type":"ris_message","data":{"timestamp":1.0,"peer":"1.2.3.4","peer_asn":"1","type":"UPDATE","announcements":[{"next_hop":"1.2.3.4","prefixes":["10.0.0.0/8","10.1.0.0/16"],"withdrawals":["10.2.0.0/16"]},{"next_hop":"5.6.7.8","prefixes":[],"withdrawals":["10.3.0.0/16","10.4.0.0/16"]}]}}"#;
    let elems = parse_ris_live_message(msg).unwrap();
    assert_eq!(elems.len(), 5);
    let kinds: Vec<ElemType> = elems.iter().map(|e| e.elem_type).collect();
    assert_eq!(
        kinds,
        vec![
            ElemType::ANNOUNCE,
            ElemType::ANNOUNCE,
            ElemType::WITHDRAW,
            ElemType::WITHDRAW,
            ElemType::WITHDRAW,
        ]
    );
    assert_eq!(elems[0].prefix, NetPrefix { addr: IpAddress::V4(0x0a00_0000), len: 8 });
    assert_eq!(elems[4].prefix, NetPrefix { addr: IpAddress::V4(0x0a04_0000), len: 16 });
}

/// The timestamp rides through as the decimal text of the wire value.
#[test]
fn timestamp_text_is_kept() {
    let msg = r#"{"type":"ris_message","data":{"timestamp":1636342486.17,"peer":"1.2.3.4","peer_asn":"1","type":"UPDATE","announcements":[{"next_hop":"1.2.3.4","prefixes":["10.0.0.0/8"]}]}}"#;
    let elems = parse_ris_live_message(msg).unwrap();
    assert_eq!(elems[0].timestamp, "1636342486.17");
}

fn is_empty_elems(r: Result<Vec<BgpElem>, ParserRisliveError>) -> bool {
    match r {
        Ok(v) => v.is_empty(),
        Err(_) => false,
    }
}

/// A payload with mandatory fields but no inner type is a pure metadata
/// notification: an empty list, not an error.
#[test]
fn payload_without_inner_type_is_empty() {
    let msg = r#"{"type":"ris_message","data":{"timestamp":1.0,"peer":"1.2.3.4","peer_asn":"1"}}"#;
    assert!(is_empty_elems(parse_ris_live_message(msg)));
}
