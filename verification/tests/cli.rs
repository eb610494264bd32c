use p2p_handshake::cli::parse_socket_address;
use p2p_handshake::cli::parse_timeout;
use p2p_handshake::cli::SockerAddrV4Error;
use p2p_handshake::cli::SocketAddressV4;

#[test]
fn validate_socket_address_arg() {
    assert_eq!(
        parse_socket_address("random input"),
        Err(SockerAddrV4Error::InvalidAddrError)
    );
    assert_eq!(
        parse_socket_address(":3000"),
        Err(SockerAddrV4Error::MissingAddrError)
    );
    assert_eq!(
        parse_socket_address("127.0.0.1"),
        Err(SockerAddrV4Error::MissingPortError)
    );
    assert_eq!(
        parse_socket_address("127.0.0.1:"),
        Err(SockerAddrV4Error::MissingPortError)
    );
    assert_eq!(
        parse_socket_address("127.0.0:3000"),
        Err(SockerAddrV4Error::InvalidAddrError)
    );
    assert_eq!(
        parse_socket_address("127.0.0.266:3000"),
        Err(SockerAddrV4Error::InvalidAddrComponentRangeError)
    );
    assert_eq!(
        parse_socket_address("127.0.0.1:70000"),
        Err(SockerAddrV4Error::InvalidPortRangeError)
    );
    assert_eq!(
        parse_socket_address("127.0.0.1:3000"),
        Ok(SocketAddressV4::new(127, 0, 0, 1, 3000))
    );
}

#[test]
fn validate_timeout_arg() {
    {
        let result = parse_timeout("abc");
        assert!(result.is_err());
        assert_eq!(
            result.err().unwrap().message(),
            "invalid digit found in string"
        );
    }
    assert_eq!(parse_timeout("1000"), Ok(1000));
}

#[test]
fn validate_more_socket_addresses() {
    assert_eq!(
        parse_socket_address("127.0.0.1.2:3000"),
        Err(SockerAddrV4Error::InvalidAddrError)
    );
    assert_eq!(
        parse_socket_address("127..0.1:3000"),
        Err(SockerAddrV4Error::InvalidAddrComponentRangeError)
    );
    assert_eq!(
        parse_socket_address("255.255.255.255:65535"),
        Ok(SocketAddressV4::new(255, 255, 255, 255, 65535))
    );
    assert_eq!(
        parse_socket_address("0.0.0.0:0"),
        Ok(SocketAddressV4::new(0, 0, 0, 0, 0))
    );
}

#[test]
fn validate_timeout_edges() {
    let empty = parse_timeout("");
    assert_eq!(
        empty.err().unwrap().message(),
        "cannot parse integer from empty string"
    );

    let too_large = parse_timeout("99999999999999999999999");
    assert_eq!(
        too_large.err().unwrap().message(),
        "number too large to fit in target type"
    );

    assert_eq!(parse_timeout("18446744073709551615"), Ok(u64::MAX));
    assert!(parse_timeout("18446744073709551616").is_err());
    assert!(parse_timeout("10 ").is_err());
}
