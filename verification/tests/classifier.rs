use validator::database::{Protocol, Server};
use validator::uri_parser::{
    classify, extract_hostnames, info_page_domain, is_onion_domain, is_server_official,
    label_char, parse_uri, DomainKind, UriError,
};

fn server(protocol: i64, identity: &str, host: &str) -> Server {
    Server {
        uuid: "a1".to_string(),
        protocol,
        identity: identity.to_string(),
        host: host.to_string(),
    }
}

#[test]
fn uri_joins_scheme_identity_and_host() {
    assert_eq!(server(1, "k1", "example.com:5223").uri(), "smp://k1@example.com:5223");
    assert_eq!(server(2, "k2", "files.example.org").uri(), "xftp://k2@files.example.org");
    assert_eq!(server(0, "k", "h").uri(), "unknown://k@h");
    assert_eq!(server(-7, "", "").uri(), "unknown://@");
}

#[test]
fn protocol_codes() {
    assert_eq!(Protocol::from_code(1), Protocol::Smp);
    assert_eq!(Protocol::from_code(2), Protocol::Xftp);
    assert_eq!(Protocol::from_code(3), Protocol::Unknown);
    assert_eq!(Protocol::from_code(i64::MIN), Protocol::Unknown);
    assert_eq!(Protocol::Smp.scheme(), "smp");
    assert_eq!(Protocol::Xftp.scheme(), "xftp");
    assert_eq!(Protocol::Unknown.scheme(), "unknown");
}

#[test]
fn official_is_a_substring_test() {
    assert!(is_server_official("smp://key@smp4.simplex.im"));
    assert!(is_server_official("simplex.im"));
    assert!(is_server_official("not a uri at all simplex.im,,,"));
    assert!(!is_server_official("smp://key@example.com"));
    assert!(!is_server_official("simplex.i"));
    assert!(!is_server_official("SIMPLEX.IM"));
    assert!(!is_server_official(""));
}

#[test]
fn hostnames_follow_the_first_at_sign() {
    assert_eq!(extract_hostnames("smp://k@a.com:5223,b.onion"), vec!["a.com:5223", "b.onion"]);
    assert_eq!(extract_hostnames("smp://k@a.com"), vec!["a.com"]);
    assert_eq!(extract_hostnames("no at sign"), vec![""]);
    assert_eq!(extract_hostnames("x@"), vec![""]);
    assert_eq!(extract_hostnames("x@a,b@c,d"), vec!["a", "b"]);
    assert_eq!(extract_hostnames("x@a,,b,"), vec!["a", "", "b", ""]);
}

#[test]
fn parse_uri_keeps_unofficial_hosts() {
    assert_eq!(
        parse_uri("smp://k@a.com:5223,smp1.simplex.im,b.onion"),
        Ok(vec!["a.com".to_string(), "b.onion".to_string()])
    );
    assert_eq!(parse_uri("smp://k1@example.com:5223"), Ok(vec!["example.com".to_string()]));
    assert_eq!(
        parse_uri("xftp://k@a.com:1:2,:443,b.org"),
        Ok(vec!["a.com".to_string(), "".to_string(), "b.org".to_string()])
    );
    assert_eq!(parse_uri("smp://k@a.com:5223,smp1.simplex.im:5223"), Ok(vec!["a.com".to_string()]));
    assert_eq!(parse_uri("xftp://k@files.example.org"), Ok(vec!["files.example.org".to_string()]));
    assert_eq!(parse_uri("smp://k@smp1.simplex.im"), Ok(vec![]));
    assert_eq!(parse_uri("smp:"), Ok(vec!["".to_string()]));
}

#[test]
fn parse_uri_rejects_other_schemes() {
    assert_eq!(parse_uri("ftp://bad"), Err(UriError::InvalidUri));
    assert_eq!(parse_uri("unknown://k@h"), Err(UriError::InvalidUri));
    assert_eq!(parse_uri(""), Err(UriError::InvalidUri));
    assert_eq!(parse_uri("smpx://k@h"), Err(UriError::InvalidUri));
    assert_eq!(parse_uri("SMP://k@h"), Err(UriError::InvalidUri));
    assert_eq!(parse_uri("smp"), Ok(vec!["".to_string()]));
    assert_eq!(UriError::InvalidUri.message(), "Invalid SMP/XFTP URI");
}

#[test]
fn classify_strips_ports() {
    let info = classify("example.com:5223");
    assert_eq!(info.hosts, vec!["example.com"]);
    assert_eq!(info.kind, DomainKind::Dns);
    assert!(!info.is_official);
    assert_eq!(info.primary(), Some("example.com"));
}

#[test]
fn classify_finds_onion_among_hosts() {
    let info = classify("example.com:5223,abcdef.onion:443");
    assert_eq!(info.hosts, vec!["example.com", "abcdef.onion"]);
    assert_eq!(info.kind, DomainKind::Onion);
    let info = classify("abcdef.onion.example.com");
    assert_eq!(info.kind, DomainKind::Dns);
    let info = classify("");
    assert_eq!(info.hosts, vec![""]);
    assert_eq!(info.kind, DomainKind::Dns);
}

#[test]
fn primary_is_the_first_host() {
    assert_eq!(classify("b.onion:1,a.com:2").primary(), Some("b.onion"));
    assert_eq!(classify("").primary(), Some(""));
    let none = validator::uri_parser::DomainInfo {
        kind: DomainKind::Dns,
        hosts: Vec::new(),
        is_official: false,
    };
    assert_eq!(none.primary(), None);
}

#[test]
fn classify_marks_official() {
    assert!(classify("smp8.simplex.im,abc.onion").is_official);
    assert!(!classify("smp8.simplex.chat").is_official);
}

#[test]
fn onion_suffix() {
    assert!(is_onion_domain("xyz.onion"));
    assert!(is_onion_domain(".onion"));
    assert!(!is_onion_domain("onion"));
    assert!(!is_onion_domain("xyz.onion."));
    assert!(!is_onion_domain("xyz.ONION"));
}

#[test]
fn info_page_domain_is_the_first_domain_name() {
    assert_eq!(
        info_page_domain("smp://k1@example.com:5223").as_deref(),
        Some("example.com")
    );
    assert_eq!(
        info_page_domain("smp://key@abcdef.onion,smp.example.org").as_deref(),
        Some("abcdef.onion")
    );
    assert_eq!(info_page_domain("a.b.c.de.f").as_deref(), Some("a.b.c.de"));
    assert_eq!(info_page_domain("x-.y-.zz").as_deref(), Some("x-.y-.zz"));
    assert_eq!(info_page_domain("a..bc.de").as_deref(), Some("bc.de"));
    assert_eq!(info_page_domain(".a.bc.").as_deref(), Some("a.bc"));
    assert_eq!(info_page_domain("a.b@c.de").as_deref(), Some("c.de"));
    assert_eq!(info_page_domain("ab.cde.f.gh").as_deref(), Some("ab.cde.f.gh"));
    assert_eq!(info_page_domain("héllo.example.com").as_deref(), Some("llo.example.com"));
    assert_eq!(info_page_domain("a.b.cd_e.fg").as_deref(), Some("a.b.cd"));
    assert_eq!(info_page_domain("192.168.1.1").as_deref(), Some("192.168"));
}

#[test]
fn info_page_domain_may_be_absent() {
    assert_eq!(info_page_domain(""), None);
    assert_eq!(info_page_domain("localhost"), None);
    assert_eq!(info_page_domain("a.b"), None);
    assert_eq!(info_page_domain("ab.c"), None);
    assert_eq!(info_page_domain("1.2.3.4"), None);
    assert_eq!(info_page_domain("smp://key@host:5223"), None);
    assert_eq!(info_page_domain("ab..cd"), None);
    assert_eq!(info_page_domain(".ab"), None);
    assert_eq!(info_page_domain("ab."), None);
}

#[test]
fn label_characters() {
    for c in ['a', 'z', 'A', 'Z', '0', '9', '-', 'm', 'Q', '5'] {
        assert!(label_char(c));
    }
    for c in ['.', '_', ' ', '@', ':', '/', 'é', '{', '[', '`', ','] {
        assert!(!label_char(c));
    }
}
