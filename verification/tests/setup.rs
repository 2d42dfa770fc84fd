use rally::connector::{
    connect_address, request_target, stream_kind, target_for, ConnectError, StreamKind, UrlError,
};
use rally::rally::{collect_request_ids, MachineSetup, RallyBuilder};
use rally::runtime::Builder;

#[test]
fn builder_threads() {
    assert_eq!(Builder::new().threads(2).worker_threads(), 2);
    assert!(Builder::new().worker_threads() >= 1);
    assert_eq!(Builder::new().threads_for(8), 8);
    assert_eq!(Builder::new().threads(1).threads_for(8), 1);
    assert_eq!(Builder::default().threads_for(3), 3);
}

fn setup(kind: &str, ami: &str) -> MachineSetup<fn() -> u8> {
    fn step() -> u8 {
        1
    }
    MachineSetup::new(kind.to_string(), ami.to_string(), step)
}

#[test]
fn machine_setup_keeps_its_parts() {
    let m = setup("t2.micro", "ami-1");
    assert_eq!(m.instance_type(), "t2.micro");
    assert_eq!(m.ami(), "ami-1");
    assert_eq!((m.setup())(), 1);
}

#[test]
fn add_set_replaces_a_set_of_the_same_name() {
    let mut b: RallyBuilder<fn() -> u8> = RallyBuilder::default();
    b.add_set("server".to_string(), 1, setup("c5.large", "ami-s"));
    b.add_set("client".to_string(), 4, setup("t2.micro", "ami-c"));
    b.add_set("server".to_string(), 2, setup("c5.xlarge", "ami-s2"));
    assert_eq!(b.len(), 2);
    assert_eq!(b.max_duration(), 0);
    let r = b.spot_requests();
    assert_eq!(r.len(), 2);
    assert_eq!(r[0].image_id, "ami-s2");
    assert_eq!(r[0].instance_type, "c5.xlarge");
    assert_eq!(r[0].instance_count, 2);
    assert_eq!(r[0].block_duration_minutes, 0);
    assert_eq!(r[1].image_id, "ami-c");
    assert_eq!(r[1].instance_count, 4);
}

#[test]
fn request_ids_skip_missing_ones() {
    let mut ids = vec!["sir-0".to_string()];
    collect_request_ids(&mut ids, &vec![Some("sir-1".to_string()), None, Some("sir-2".to_string())]);
    assert_eq!(ids, vec!["sir-0".to_string(), "sir-1".to_string(), "sir-2".to_string()]);
}

#[test]
fn connect_address_defaults() {
    let a = connect_address(None, None, &Some("https".to_string()));
    assert_eq!(a.host, "localhost");
    assert_eq!(a.port, 443);
    let a = connect_address(Some("h".to_string()), None, &None);
    assert_eq!(a.port, 80);
    let a = connect_address(Some("h".to_string()), Some(8080), &Some("https".to_string()));
    assert_eq!(a.host, "h");
    assert_eq!(a.port, 8080);
}

#[test]
fn stream_kinds() {
    assert_eq!(stream_kind(Some("http".to_string())).unwrap(), StreamKind::Plain);
    assert_eq!(stream_kind(Some("https".to_string())).unwrap(), StreamKind::Tls);
    match stream_kind(Some("ftp".to_string())) {
        Err(ConnectError::UnsupportedScheme(s)) => assert_eq!(s, Some("ftp".to_string())),
        Ok(_) => panic!("ftp accepted"),
    }
    assert!(stream_kind(None).is_err());
}

#[test]
fn targets_of_parsed_uris() {
    let uri: hyper::Uri = "http://httpbin.org/get".parse().unwrap();
    let (a, k) = target_for(&uri);
    assert_eq!(a.host, "httpbin.org");
    assert_eq!(a.port, 80);
    assert_eq!(k.unwrap(), StreamKind::Plain);
    let uri: hyper::Uri = "https://example.com:8443/x".parse().unwrap();
    let (a, k) = target_for(&uri);
    assert_eq!(a.port, 8443);
    assert_eq!(k.unwrap(), StreamKind::Tls);
    let uri: hyper::Uri = "https://example.com/".parse().unwrap();
    assert_eq!(target_for(&uri).0.port, 443);
    let uri: hyper::Uri = "/relative".parse().unwrap();
    let (a, k) = target_for(&uri);
    assert_eq!(a.host, "localhost");
    assert_eq!(a.port, 80);
    assert!(k.is_err());
}

#[test]
fn request_targets_of_urls() {
    let (uri, a, k) = request_target("http://httpbin.org/get").unwrap();
    assert_eq!(uri.host(), Some("httpbin.org"));
    assert_eq!(a.host, "httpbin.org");
    assert_eq!(a.port, 80);
    assert_eq!(k.unwrap(), StreamKind::Plain);
    let (_, a, k) = request_target("https://example.com:8443/").unwrap();
    assert_eq!(a.port, 8443);
    assert_eq!(k.unwrap(), StreamKind::Tls);
    match request_target("http://exa mple.com/") {
        Err(UrlError::Invalid(_)) => {}
        Ok(_) => panic!("a URL with a space parsed"),
    }
}

#[test]
fn request_target_keeps_an_unsupported_scheme() {
    let (_, a, k) = request_target("ftp://files.example/").unwrap();
    assert_eq!(a.host, "files.example");
    assert_eq!(a.port, 80);
    match k {
        Err(ConnectError::UnsupportedScheme(s)) => assert_eq!(s, Some("ftp".to_string())),
        Ok(_) => panic!("ftp accepted"),
    }
}
