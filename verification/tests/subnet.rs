use oxidenms::error::NetworkError;
use oxidenms::network::ipv4::Ipv4Addr;
use oxidenms::network::subnet::Subnet;

#[test]
fn subnet_24_values() {
    let s = Subnet::parse("192.168.1.10/24").unwrap();
    assert_eq!(s.ip().to_string(), "192.168.1.10");
    assert_eq!(s.prefix(), 24);
    assert_eq!(s.mask().to_string(), "255.255.255.0");
    assert_eq!(s.network().to_string(), "192.168.1.0");
    assert_eq!(s.broadcast().to_string(), "192.168.1.255");
    assert_eq!(s.first_host().unwrap().to_string(), "192.168.1.1");
    assert_eq!(s.last_host().unwrap().to_string(), "192.168.1.254");
    assert_eq!(s.usable_hosts(), 254);
}

#[test]
fn subnet_31_and_32() {
    let s = Subnet::parse("10.0.0.1/31").unwrap();
    assert!(s.first_host().is_none());
    assert!(s.last_host().is_none());
    assert_eq!(s.usable_hosts(), 2);
    let h = Subnet::parse("10.0.0.7/32").unwrap();
    assert!(h.first_host().is_none());
    assert!(h.last_host().is_none());
    assert_eq!(h.mask().to_string(), "255.255.255.255");
    assert_eq!(h.usable_hosts(), 1);
}

#[test]
fn subnet_0_covers_everything() {
    let s = Subnet::parse("1.2.3.4/0").unwrap();
    assert_eq!(s.mask().to_string(), "0.0.0.0");
    assert_eq!(s.network().to_string(), "0.0.0.0");
    assert_eq!(s.broadcast().to_string(), "255.255.255.255");
    assert_eq!(s.usable_hosts(), 4_294_967_294);
}

#[test]
fn subnet_parse_errors() {
    assert_eq!(Subnet::parse("192.168.1.10").unwrap_err(), NetworkError::InvalidFormat);
    assert_eq!(
        Subnet::parse("192.168.1.300/24").unwrap_err(),
        NetworkError::InvalidIp("192.168.1.300".to_string())
    );
    assert_eq!(
        Subnet::parse("192.168.1.1/abc").unwrap_err(),
        NetworkError::InvalidPrefix("abc".to_string())
    );
    assert_eq!(
        Subnet::parse("192.168.1.1/33").unwrap_err(),
        NetworkError::PrefixOutOfRange(33)
    );
    assert_eq!(
        Subnet::parse("192.168.1.1/256").unwrap_err(),
        NetworkError::InvalidPrefix("256".to_string())
    );
}

#[test]
fn subnet_new_checks_prefix() {
    let ip = Ipv4Addr::new(10, 0, 0, 1);
    assert!(Subnet::new(ip, 32).is_ok());
    assert_eq!(Subnet::new(ip, 33).unwrap_err(), NetworkError::PrefixOutOfRange(33));
}

#[test]
fn ipv4_parse_rules() {
    assert_eq!(Ipv4Addr::parse("0.0.0.0"), Some(Ipv4Addr::new(0, 0, 0, 0)));
    assert_eq!(Ipv4Addr::parse("255.255.255.255").unwrap().to_bits(), u32::MAX);
    assert_eq!(Ipv4Addr::parse("01.2.3.4"), None);
    assert_eq!(Ipv4Addr::parse("1.2.3"), None);
    assert_eq!(Ipv4Addr::parse("1.2.3.4.5"), None);
    assert_eq!(Ipv4Addr::parse("1.2.3.256"), None);
    assert_eq!(Ipv4Addr::parse(""), None);
    assert_eq!(Ipv4Addr::new(192, 168, 0, 1).octets(), [192, 168, 0, 1]);
}

#[test]
fn error_messages() {
    assert_eq!(
        NetworkError::PrefixOutOfRange(40).message(),
        "Prefix 0 ile 32 arasinda olmali, verilen: 40"
    );
    assert_eq!(
        NetworkError::InvalidIp("x".to_string()).message(),
        "Gecersiz IP adresi: x"
    );
}
