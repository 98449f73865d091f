use socket_relay::address::{
    get_socket_address, inner_resolve_address, parse_unsigned_decimal, resolve_address,
    AddressError, AddressProblem, IpSocketAddress, Ipv4SocketAddress,
};

fn args(list: &[&str]) -> Vec<String> {
    list.iter().map(|s| s.to_string()).collect()
}

#[test]
fn resolves_loopback_listen_address() {
    let res = resolve_address(args(&["127", "0", "0", "1", "8080"]));
    assert_eq!(res, Ok(((127, 0, 0, 1), 8080)));
}

#[test]
fn ignores_arguments_after_the_port() {
    let res = resolve_address(args(&["10", "1", "2", "3", "8090", "127", "0"]));
    assert_eq!(res, Ok(((10, 1, 2, 3), 8090)));
}

#[test]
fn extremes_of_octets_and_port() {
    assert_eq!(
        resolve_address(args(&["0", "255", "0", "255", "65535"])),
        Ok(((0, 255, 0, 255), 65535))
    );
    assert_eq!(resolve_address(args(&["0", "0", "0", "0", "0"])), Ok(((0, 0, 0, 0), 0)));
}

#[test]
fn plus_sign_and_leading_zeros_are_accepted() {
    assert_eq!(
        resolve_address(args(&["+127", "000", "00", "+001", "08080"])),
        Ok(((127, 0, 0, 1), 8080))
    );
}

#[test]
fn missing_argument_is_reported_with_its_index() {
    assert_eq!(
        resolve_address(args(&["127", "0", "0"])),
        Err(AddressError { index: 3, problem: AddressProblem::Missing })
    );
    assert_eq!(
        resolve_address(args(&[])),
        Err(AddressError { index: 0, problem: AddressProblem::Missing })
    );
}

#[test]
fn octet_out_of_range_is_unparsable() {
    assert_eq!(
        resolve_address(args(&["127", "256", "0", "1", "8080"])),
        Err(AddressError { index: 1, problem: AddressProblem::Unparsable })
    );
}

#[test]
fn port_out_of_range_is_unparsable() {
    assert_eq!(
        resolve_address(args(&["127", "0", "0", "1", "65536"])),
        Err(AddressError { index: 4, problem: AddressProblem::Unparsable })
    );
}

#[test]
fn the_first_bad_argument_is_reported() {
    assert_eq!(
        resolve_address(args(&["x", "999", "0", "1"])),
        Err(AddressError { index: 0, problem: AddressProblem::Unparsable })
    );
}

#[test]
fn parse_matches_std_parse() {
    let cases = [
        "", "+", "-", "-1", "0", "7", "42", "255", "256", "+255", "++1", " 1", "1 ", "1a", "a1",
        "0000255", "65535", "65536", "99999999999999999999999", "١", "12٣",
    ];
    for s in cases {
        assert_eq!(parse_unsigned_decimal(s, 255), s.parse::<u8>().ok().map(u64::from), "{s:?}");
        assert_eq!(parse_unsigned_decimal(s, 65535), s.parse::<u16>().ok().map(u64::from), "{s:?}");
    }
}

#[test]
fn inner_resolve_address_problems() {
    let good = "200".to_string();
    let bad = "300".to_string();
    assert_eq!(inner_resolve_address(Some(&good), 255), Ok(200));
    assert_eq!(inner_resolve_address(Some(&bad), 255), Err(AddressProblem::Unparsable));
    assert_eq!(inner_resolve_address(None, 255), Err(AddressProblem::Missing));
}

#[test]
fn decimal_renderings_resolve_to_themselves() {
    for (a, p) in [((127u8, 0u8, 0u8, 1u8), 8080u16), ((255, 254, 9, 10), 1), ((0, 0, 0, 0), 65535)] {
        let list = vec![
            a.0.to_string(),
            a.1.to_string(),
            a.2.to_string(),
            a.3.to_string(),
            p.to_string(),
            "extra".to_string(),
        ];
        assert_eq!(resolve_address(list), Ok((a, p)));
    }
}

#[test]
fn socket_address_of_address_and_port() {
    let expected = IpSocketAddress::Ipv4(Ipv4SocketAddress { address: (127, 0, 0, 1), port: 8100 });
    assert_eq!(get_socket_address((127, 0, 0, 1), 8100), expected);
    assert_eq!(IpSocketAddress::new((127, 0, 0, 1), 8100), expected);
}
