use kaito::modules::lua::http::{
    admit_addresses, check_url, http_fetch, plan_fetch, shape_host_request, shape_request,
    take_http_call, BodyBuffer, FetchOptions, HttpError, IpAddress, Lookup, SocketAddress,
    UrlHost, UrlParts, MAX_BODY_SIZE,
};
use kaito::modules::lua::state::SandboxLimits;

fn v4(a: u8, b: u8, c: u8, d: u8) -> SocketAddress {
    SocketAddress { ip: IpAddress::V4([a, b, c, d]), port: 80 }
}

#[test]
fn address_classes() {
    assert!(IpAddress::V4([127, 0, 0, 1]).is_loopback());
    assert!(IpAddress::V4([127, 255, 0, 9]).is_loopback());
    assert!(!IpAddress::V4([128, 0, 0, 1]).is_loopback());
    assert!(IpAddress::V4([224, 0, 0, 1]).is_multicast());
    assert!(IpAddress::V4([239, 255, 255, 255]).is_multicast());
    assert!(!IpAddress::V4([240, 0, 0, 0]).is_multicast());
    assert!(IpAddress::V4([0, 0, 0, 0]).is_unspecified());
    assert!(!IpAddress::V4([0, 0, 0, 1]).is_unspecified());
    assert!(IpAddress::V4([10, 9, 8, 7]).is_private());
    assert!(IpAddress::V4([172, 16, 0, 1]).is_private());
    assert!(IpAddress::V4([172, 31, 255, 1]).is_private());
    assert!(!IpAddress::V4([172, 32, 0, 1]).is_private());
    assert!(!IpAddress::V4([172, 15, 0, 1]).is_private());
    assert!(IpAddress::V4([192, 168, 1, 1]).is_private());
    assert!(!IpAddress::V4([192, 169, 1, 1]).is_private());
    assert!(IpAddress::V6([0, 0, 0, 0, 0, 0, 0, 1]).is_loopback());
    assert!(IpAddress::V6([0, 0, 0, 0, 0, 0, 0, 0]).is_unspecified());
    assert!(IpAddress::V6([0xff02, 0, 0, 0, 0, 0, 0, 1]).is_multicast());
    assert!(!IpAddress::V6([0x2001, 0xdb8, 0, 0, 0, 0, 0, 1]).is_private());
}

#[test]
fn every_address_of_version_six_is_disallowed() {
    assert!(IpAddress::V6([0x2001, 0xdb8, 0, 0, 0, 0, 0, 1]).is_disallowed());
    assert!(IpAddress::V6([0, 0, 0, 0, 0, 0, 0, 1]).is_disallowed());
}

#[test]
fn public_address_is_allowed() {
    assert!(!IpAddress::V4([93, 184, 216, 34]).is_disallowed());
    assert!(!IpAddress::V4([169, 254, 0, 1]).is_disallowed());
    assert!(!IpAddress::V4([8, 8, 8, 8]).is_disallowed());
}

#[test]
fn address_text() {
    assert_eq!(v4(127, 0, 0, 1).to_text(), "127.0.0.1:80");
    assert_eq!(IpAddress::V4([10, 0, 200, 5]).to_text(), "10.0.200.5");
    let six = SocketAddress { ip: IpAddress::V6([0, 0, 0, 0, 0, 0, 0, 1]), port: 443 };
    assert_eq!(six.to_text(), "[::1]:443");
    assert_eq!(IpAddress::V6([0; 8]).to_text(), "::");
    assert_eq!(IpAddress::V6([1, 0, 0, 2, 0, 0, 0, 3]).to_text(), "1:0:0:2::3");
    assert_eq!(IpAddress::V6([1, 0, 0, 2, 0, 0, 3, 4]).to_text(), "1::2:0:0:3:4");
    assert_eq!(IpAddress::V6([1, 0, 2, 0, 3, 0, 4, 0]).to_text(), "1:0:2:0:3:0:4:0");
    assert_eq!(IpAddress::V6([0, 0, 0, 0, 0, 0xffff, 0x0102, 0x0304]).to_text(), "::ffff:1.2.3.4");
    let six = SocketAddress {
        ip: IpAddress::V6([0x2001, 0xdb8, 0xff, 0xf, 0, 0xabcd, 0x10, 0xffff]),
        port: 65535,
    };
    assert_eq!(six.to_text(), "[2001:db8:ff:f:0:abcd:10:ffff]:65535");
}

#[test]
fn check_accepts_public_host_name() {
    let plan = check_url("https://example.com/").unwrap();
    assert_eq!(plan.url, "https://example.com/");
    match plan.lookup {
        Lookup::Resolve(host, port) => {
            assert_eq!(host, "example.com");
            assert_eq!(port, 443);
        }
        other => panic!("{:?}", other),
    }
    let addrs = vec![SocketAddress { ip: IpAddress::V4([93, 184, 216, 34]), port: 443 }];
    assert!(admit_addresses(&addrs).is_ok());
}

#[test]
fn check_rejects_loopback_literal() {
    match check_url("http://127.0.0.1/") {
        Err(HttpError::DisallowedAddress(a)) => assert_eq!(a, v4(127, 0, 0, 1)),
        other => panic!("{:?}", other),
    }
}

#[test]
fn check_rejects_private_literal() {
    match check_url("http://10.0.0.5/") {
        Err(HttpError::DisallowedAddress(a)) => assert_eq!(a, v4(10, 0, 0, 5)),
        other => panic!("{:?}", other),
    }
}

#[test]
fn check_accepts_link_local_literal() {
    // neither unspecified nor multicast, nor any other class that is refused
    let plan = check_url("http://169.254.0.1").unwrap();
    assert!(matches!(plan.lookup, Lookup::Known(a) if a == v4(169, 254, 0, 1)));
    assert_eq!(plan.url, "http://169.254.0.1/");
}

#[test]
fn check_rejects_version_six_literal() {
    match check_url("https://[::1]/") {
        Err(HttpError::DisallowedAddress(a)) => {
            assert_eq!(a.ip, IpAddress::V6([0, 0, 0, 0, 0, 0, 0, 1]));
            assert_eq!(a.port, 443);
        }
        other => panic!("{:?}", other),
    }
    assert!(matches!(
        check_url("http://[2001:db8::1]:8080/x"),
        Err(HttpError::DisallowedAddress(a)) if a.port == 8080
    ));
}

#[test]
fn check_rejects_other_schemes() {
    match check_url("ftp://example.com/") {
        Err(HttpError::UnknownScheme(s)) => assert_eq!(s, "ftp"),
        other => panic!("{:?}", other),
    }
    assert!(matches!(check_url("file:///etc/passwd"), Err(HttpError::UnknownScheme(_))));
}

#[test]
fn check_rejects_what_is_no_url() {
    assert!(matches!(check_url("not a url"), Err(HttpError::ErrorParsingUrl(_))));
    assert!(matches!(check_url(""), Err(HttpError::ErrorParsingUrl(_))));
}

#[test]
fn port_of_the_url_wins() {
    let plan = check_url("http://example.com:8080/a?b=c").unwrap();
    assert!(matches!(plan.lookup, Lookup::Resolve(ref h, 8080) if h == "example.com"));
    let plan = check_url("http://example.com/").unwrap();
    assert!(matches!(plan.lookup, Lookup::Resolve(_, 80)));
}

#[test]
fn one_bad_address_refuses_the_host() {
    let addrs = vec![v4(93, 184, 216, 34), v4(192, 168, 0, 1), v4(127, 0, 0, 1)];
    match admit_addresses(&addrs) {
        Err(HttpError::DisallowedAddress(a)) => assert_eq!(a, v4(192, 168, 0, 1)),
        other => panic!("{:?}", other),
    }
    assert!(admit_addresses(&Vec::new()).is_ok());
}

#[test]
fn http_quota_counts_attempts() {
    let mut limits = SandboxLimits::new();
    assert_eq!(limits.http_calls_left, 2);
    // the first attempt fails for its URL and still counts
    assert!(matches!(
        http_fetch(&mut limits, "not a url"),
        Err(HttpError::ErrorParsingUrl(_))
    ));
    assert_eq!(limits.http_calls_left, 1);
    assert!(http_fetch(&mut limits, "https://example.com/").is_ok());
    assert_eq!(limits.http_calls_left, 0);
    let third = http_fetch(&mut limits, "https://example.com/").unwrap_err();
    assert!(matches!(third, HttpError::HttpCallLimitReached));
    assert_eq!(third.message(), "http call limit reached");
    assert_eq!(limits.http_calls_left, 0);
}

#[test]
fn take_http_call_counts_down() {
    let mut limits = SandboxLimits::new();
    assert!(take_http_call(&mut limits).is_ok());
    assert!(take_http_call(&mut limits).is_ok());
    assert!(take_http_call(&mut limits).is_err());
    assert!(take_http_call(&mut limits).is_err());
    assert_eq!(limits.http_calls_left, 0);
    assert_eq!(limits.lines_left, 10);
}

#[test]
fn error_messages() {
    assert_eq!(
        HttpError::ErrorParsingUrl("x".into()).message(),
        "error parsing url: \"x\""
    );
    assert_eq!(
        HttpError::UnknownScheme("ftp".into()).message(),
        "unknown url scheme: \"ftp\""
    );
    assert_eq!(
        HttpError::ErrorResolvingHosts("nope".into()).message(),
        "error resolving hosts: nope"
    );
    assert_eq!(
        HttpError::DisallowedAddress(v4(10, 0, 0, 5)).message(),
        "local or ipv6 addresses are not allowed: \"10.0.0.5:80\""
    );
    assert_eq!(
        HttpError::ErrorBuildingRequest("bad".into()).message(),
        "error building request: bad"
    );
}

#[test]
fn guests_get_a_bare_get() {
    let options = FetchOptions {
        method: Some("POST".into()),
        headers: vec![(b"a".to_vec(), b"b".to_vec())],
        body: Some(b"x".to_vec()),
    };
    let r = shape_request("http://e/".into(), false, options.clone());
    assert_eq!(r.method, "GET");
    assert!(r.headers.is_empty());
    assert!(r.body.is_empty());
    assert_eq!(r.url, "http://e/");
    let r = shape_request("http://e/".into(), true, options);
    assert_eq!(r.method, "POST");
    assert_eq!(r.headers, vec![(b"a".to_vec(), b"b".to_vec())]);
    assert_eq!(r.body, b"x".to_vec());
    let r = shape_request(
        "http://e/".into(),
        true,
        FetchOptions { method: None, headers: vec![], body: None },
    );
    assert_eq!(r.method, "GET");
    assert!(r.body.is_empty());
}

#[test]
fn host_requests_are_gets() {
    let r = shape_host_request("http://e/".into(), Some(b"q".to_vec()));
    assert_eq!(r.method, "GET");
    assert_eq!(r.body, b"q".to_vec());
    assert!(shape_host_request("http://e/".into(), None).body.is_empty());
}

#[test]
fn body_limit() {
    let mut b = BodyBuffer::new();
    assert!(b.push(&vec![1u8; MAX_BODY_SIZE - 1]).is_ok());
    assert!(b.push(&[2u8]).is_ok());
    assert!(b.push(&[3u8]).is_err());
    assert!(b.push(&[]).is_err());
    assert!(b.finish().is_err());

    let mut b = BodyBuffer::new();
    assert!(b.push(b"ab").is_ok());
    assert!(b.push(b"cd").is_ok());
    assert_eq!(b.finish().unwrap(), b"abcd".to_vec());

    let mut b = BodyBuffer::new();
    assert!(b.push(&vec![0u8; MAX_BODY_SIZE + 1]).is_err());
    assert!(b.finish_or_empty().is_empty());
    assert_eq!(MAX_BODY_SIZE, 4 * 1024 * 1024);
}

fn parts(scheme: &str, host: UrlHost, port: Option<u16>) -> Result<UrlParts, String> {
    Ok(UrlParts { scheme: scheme.into(), host, port, text: "the url".into() })
}

#[test]
fn the_filter_on_the_parts_of_a_url() {
    let plan = plan_fetch(parts("https", UrlHost::Domain("a.b".into()), None)).unwrap();
    assert_eq!(plan.url, "the url");
    assert!(matches!(plan.lookup, Lookup::Resolve(ref h, 443) if h == "a.b"));
    let plan = plan_fetch(parts("http", UrlHost::Domain("a.b".into()), None)).unwrap();
    assert!(matches!(plan.lookup, Lookup::Resolve(_, 80)));
    let plan = plan_fetch(parts("http", UrlHost::Domain("a.b".into()), Some(81))).unwrap();
    assert!(matches!(plan.lookup, Lookup::Resolve(_, 81)));

    let public = UrlHost::Address(IpAddress::V4([1, 2, 3, 4]));
    let plan = plan_fetch(parts("https", public, None)).unwrap();
    assert!(matches!(plan.lookup,
        Lookup::Known(a) if a == SocketAddress { ip: IpAddress::V4([1, 2, 3, 4]), port: 443 }));

    for ip in [[127, 0, 0, 1], [10, 1, 1, 1], [172, 20, 0, 1], [192, 168, 0, 1], [0, 0, 0, 0],
        [224, 0, 0, 1]] {
        let refused = plan_fetch(parts("http", UrlHost::Address(IpAddress::V4(ip)), Some(8080)));
        assert!(matches!(refused, Err(HttpError::DisallowedAddress(a))
            if a == SocketAddress { ip: IpAddress::V4(ip), port: 8080 }));
    }
    let six = UrlHost::Address(IpAddress::V6([0x2a00, 0, 0, 0, 0, 0, 0, 1]));
    assert!(matches!(plan_fetch(parts("https", six, None)), Err(HttpError::DisallowedAddress(_))));

    match plan_fetch(parts("http", UrlHost::Missing, None)) {
        Err(HttpError::ErrorResolvingHosts(why)) => assert_eq!(why, "No host name in the URL"),
        other => panic!("{:?}", other),
    }
    // the scheme is looked at before the host
    assert!(matches!(plan_fetch(parts("HTTP", UrlHost::Missing, None)),
        Err(HttpError::UnknownScheme(s)) if s == "HTTP"));
    assert!(matches!(plan_fetch(Err("bad".into())),
        Err(HttpError::ErrorParsingUrl(s)) if s == "bad"));
}

/// The address that a URL with an address for its host names, as the
/// library writes it and as std writes it.
fn both_texts(url: &str) -> (String, String) {
    let ours = match check_url(url) {
        Ok(plan) => match plan.lookup {
            Lookup::Known(a) => a.to_text(),
            other => panic!("{:?}", other),
        },
        Err(HttpError::DisallowedAddress(a)) => a.to_text(),
        Err(other) => panic!("{:?}", other),
    };
    let theirs = url::Url::parse(url).unwrap().socket_addrs(|| None).unwrap()[0].to_string();
    (ours, theirs)
}

#[test]
fn addresses_are_written_as_std_writes_them() {
    let hosts = [
        "1.2.3.4", "127.0.0.1", "255.255.255.255", "0.0.0.0", "[::]", "[::1]", "[1::]",
        "[2001:db8::1]", "[1:0:0:2:0:0:0:3]", "[1:0:0:2:0:0:3:4]", "[1:0:0:0:2:0:0:0]",
        "[::ffff:1.2.3.4]", "[::1.2.3.4]", "[0:0:0:0:0:ffff:0:0]", "[1:2:3:4:5:6:7:8]",
        "[1:0:2:0:3:0:4:0]", "[fe80::1]", "[ff02::1]", "[0:0:1::]", "[a:b:c:d:e:f:0:0]",
        "[0:a:b:c:d:e:f:0]", "[0:0:a:b:c:d:e:f]", "[ffff:ffff:ffff:ffff:ffff:ffff:ffff:ffff]",
        "[::ffff:0:1]", "[0:0:0:0:0:fffe:1:2]", "[1:0:0:0:0:0:0:0]", "[0:1:0:0:0:0:0:0]",
    ];
    for host in hosts {
        for (scheme, port) in [("http", ""), ("https", ""), ("http", ":8080"), ("https", ":1")] {
            let url = format!("{}://{}{}/x", scheme, host, port);
            let (ours, theirs) = both_texts(&url);
            assert_eq!(ours, theirs, "{}", url);
        }
    }
}

#[test]
fn the_filter_asked_on_its_own_has_its_own_words() {
    let words = |url: &str| check_url(url).unwrap_err().filter_message();
    assert_eq!(words("http://127.0.0.1/"), "disallowed ip address found: 127.0.0.1:80");
    assert_eq!(words("http://10.0.0.5/"), "disallowed ip address found: 10.0.0.5:80");
    assert_eq!(
        words("http://172.31.255.255/"),
        "disallowed ip address found: 172.31.255.255:80"
    );
    assert_eq!(words("https://[::1]/"), "disallowed ip address found: [::1]:443");
    assert_eq!(words("ftp://example.com/"), "unknown scheme: ftp");
    assert_eq!(
        HttpError::ErrorResolvingHosts("nope".into()).filter_message(),
        "error resolving hosts: nope"
    );
    // a text that is no URL is worded as everywhere
    assert_eq!(
        HttpError::ErrorParsingUrl("x".into()).filter_message(),
        "error parsing url: \"x\""
    );
    assert_eq!(HttpError::HttpCallLimitReached.filter_message(), "http call limit reached");
    // a guest's request keeps its own words
    assert_eq!(
        check_url("https://[::1]/").unwrap_err().message(),
        "local or ipv6 addresses are not allowed: \"[::1]:443\""
    );
    let addrs = vec![v4(8, 8, 8, 8), v4(192, 168, 1, 1)];
    assert_eq!(
        admit_addresses(&addrs).unwrap_err().filter_message(),
        "disallowed ip address found: 192.168.1.1:80"
    );
}
