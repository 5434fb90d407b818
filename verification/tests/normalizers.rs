use ris_live_rs::error::ParserRisliveError;
use ris_live_rs::{
    parse_aggregator, parse_as_path, parse_communities, parse_origin, parse_u32_dec, Community,
    IpAddress, Origin, PathSegment,
};

#[test]
fn u32_parsing_follows_std() {
    assert_eq!(parse_u32_dec("0"), Some(0));
    assert_eq!(parse_u32_dec("58299"), Some(58299));
    assert_eq!(parse_u32_dec("+58299"), Some(58299));
    assert_eq!(parse_u32_dec("0058299"), Some(58299));
    assert_eq!(parse_u32_dec("4294967295"), Some(u32::MAX));
    assert_eq!(parse_u32_dec("4294967296"), None);
    assert_eq!(parse_u32_dec("99999999999999999999"), None);
    assert_eq!(parse_u32_dec(""), None);
    assert_eq!(parse_u32_dec("+"), None);
    assert_eq!(parse_u32_dec("-1"), None);
    assert_eq!(parse_u32_dec("12x"), None);
    assert_eq!(parse_u32_dec(" 1"), None);
}

#[test]
fn origin_tokens() {
    assert_eq!(parse_origin("igp"), Ok(Origin::IGP));
    assert_eq!(parse_origin("EGP"), Ok(Origin::EGP));
    assert_eq!(parse_origin("iNcOmPlEtE"), Ok(Origin::INCOMPLETE));
    assert_eq!(
        parse_origin("unknown"),
        Err(ParserRisliveError::ElemUnknownOriginType("unknown".to_string()))
    );
    assert_eq!(
        parse_origin(""),
        Err(ParserRisliveError::ElemUnknownOriginType(String::new()))
    );
}

#[test]
fn aggregator_shapes() {
    assert_eq!(
        parse_aggregator("65000:8.42.232.1"),
        Ok((65000, IpAddress::V4(0x082a_e801)))
    );
    assert_eq!(
        parse_aggregator("garbage"),
        Err(ParserRisliveError::ElemIncorrectAggregator("garbage".to_string()))
    );
    // an IPv6 aggregator address splits into more than two parts
    assert_eq!(
        parse_aggregator("65000:2001:db8::1"),
        Err(ParserRisliveError::ElemIncorrectAggregator("65000:2001:db8::1".to_string()))
    );
    assert_eq!(
        parse_aggregator("x:8.42.232.1"),
        Err(ParserRisliveError::ElemIncorrectAggregator("x:8.42.232.1".to_string()))
    );
    assert_eq!(
        parse_aggregator("65000:"),
        Err(ParserRisliveError::ElemIncorrectAggregator("65000:".to_string()))
    );
    assert_eq!(
        parse_aggregator(":8.42.232.1"),
        Err(ParserRisliveError::ElemIncorrectAggregator(":8.42.232.1".to_string()))
    );
}

#[test]
fn as_path_normalization() {
    let v: serde_json::Value = serde_json::from_str("[58299,[49981,397666],13904]").unwrap();
    let path = parse_as_path(&v, "ctx").unwrap();
    assert_eq!(
        path,
        vec![
            PathSegment::Asn(58299),
            PathSegment::AsSet(vec![49981, 397666]),
            PathSegment::Asn(13904),
        ]
    );

    let bad: serde_json::Value = serde_json::from_str(r#"[58299,"x"]"#).unwrap();
    assert_eq!(
        parse_as_path(&bad, "ctx"),
        Err(ParserRisliveError::IncorrectJson("ctx".to_string()))
    );

    let too_big: serde_json::Value = serde_json::from_str("[4294967296]").unwrap();
    assert_eq!(
        parse_as_path(&too_big, "ctx"),
        Err(ParserRisliveError::IncorrectJson("ctx".to_string()))
    );

    let not_array: serde_json::Value = serde_json::from_str("5").unwrap();
    assert_eq!(
        parse_as_path(&not_array, "ctx"),
        Err(ParserRisliveError::IncorrectJson("ctx".to_string()))
    );
}

#[test]
fn community_normalization() {
    let v: serde_json::Value = serde_json::from_str("[[65000,100],[1,2]]").unwrap();
    let cs = parse_communities(&v, "ctx").unwrap();
    assert_eq!(
        cs,
        vec![
            Community { asn: 65000, value: 100 },
            Community { asn: 1, value: 2 },
        ]
    );

    let arity: serde_json::Value = serde_json::from_str("[[65000]]").unwrap();
    assert_eq!(
        parse_communities(&arity, "ctx"),
        Err(ParserRisliveError::ElemIncorrectCommunity(1))
    );

    let too_big: serde_json::Value = serde_json::from_str("[[65000,65536]]").unwrap();
    assert_eq!(
        parse_communities(&too_big, "ctx"),
        Err(ParserRisliveError::IncorrectJson("ctx".to_string()))
    );

    let not_ints: serde_json::Value = serde_json::from_str(r#"[["a","b"]]"#).unwrap();
    assert_eq!(
        parse_communities(&not_ints, "ctx"),
        Err(ParserRisliveError::IncorrectJson("ctx".to_string()))
    );
}
