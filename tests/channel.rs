use std::time::Duration;
use tonic::transport::Uri;
use triton_client::channel::{scheme_tls, Action, Call, ChannelPool, Event};
use triton_client::config::{CompressionEncoding, InferenceServerClientConfig};
use triton_client::error::{Code, Error, Status};

fn pool() -> ChannelPool<u32> {
    ChannelPool::new(
        Uri::from_static("http://localhost:8001"),
        false,
        Duration::from_secs(30),
        Duration::from_secs(5),
        true,
        Duration::from_secs(20),
    )
}

fn failure(code: Code) -> Error {
    Error::ResponseError { status: Status::new(code, "boom".to_string()) }
}

#[test]
fn first_call_connects_then_reuses() {
    let mut p = pool();
    let (mut call, a) = p.begin::<u8>(true);
    assert!(matches!(a, Action::Connect));
    assert!(matches!(p.step::<u8>(&mut call, Event::Connected(7)), Action::Invoke));
    assert_eq!(p.get_channel(), Some(&7));
    assert!(matches!(p.step(&mut call, Event::Completed(Ok(1u8))), Action::Finish(Ok(1))));
    let (_, again) = p.begin::<u8>(true);
    assert!(matches!(again, Action::Invoke));
}

#[test]
fn unavailable_then_success_is_retried() {
    let mut p = pool();
    let (mut call, _) = p.begin::<&str>(true);
    p.step::<&str>(&mut call, Event::Connected(1));
    let next = p.step::<&str>(&mut call, Event::Completed(Err(failure(Code::Unavailable))));
    assert!(matches!(next, Action::Connect));
    assert_eq!(p.get_channel(), None);
    assert!(matches!(p.step::<&str>(&mut call, Event::Connected(2)), Action::Invoke));
    assert!(matches!(p.step(&mut call, Event::Completed(Ok("done"))), Action::Finish(Ok("done"))));
    assert_eq!(p.get_channel(), Some(&2));
}

#[test]
fn second_failure_is_not_retried() {
    let mut p = pool();
    let (mut call, _) = p.begin::<u8>(true);
    p.step::<u8>(&mut call, Event::Connected(1));
    p.step::<u8>(&mut call, Event::Completed(Err(failure(Code::Internal))));
    p.step::<u8>(&mut call, Event::Connected(2));
    let last = p.step::<u8>(&mut call, Event::Completed(Err(failure(Code::Unknown))));
    assert!(matches!(last, Action::Finish(Err(Error::ResponseError { .. }))));
    assert_eq!(p.get_channel(), Some(&2));
}

#[test]
fn unavailable_without_retry_disconnects() {
    let mut p = pool();
    let (mut call, _) = p.begin::<u8>(false);
    p.step::<u8>(&mut call, Event::Connected(1));
    match p.step::<u8>(&mut call, Event::Completed(Err(failure(Code::Unavailable)))) {
        Action::Finish(Err(Error::ResponseError { status })) => assert_eq!(status.code(), Code::Unavailable),
        _ => panic!("expected the first failure"),
    }
    assert_eq!(p.get_channel(), None);
}

#[test]
fn invalid_argument_is_returned_at_once() {
    let mut p = pool();
    let (mut call, _) = p.begin::<u8>(true);
    p.step::<u8>(&mut call, Event::Connected(1));
    match p.step::<u8>(&mut call, Event::Completed(Err(failure(Code::InvalidArgument)))) {
        Action::Finish(Err(Error::ResponseError { status })) => assert_eq!(status.code(), Code::InvalidArgument),
        _ => panic!("expected the first failure"),
    }
    assert_eq!(p.get_channel(), Some(&1));
    assert_eq!(call, Call { allow_retry: true, retried: false });
}

#[test]
fn connect_failure_is_returned() {
    let mut p = pool();
    let (mut call, _) = p.begin::<u8>(true);
    let a = p.step::<u8>(&mut call, Event::ConnectFailed(failure(Code::Internal)));
    assert!(matches!(a, Action::Finish(Err(_))));
    assert_eq!(p.get_channel(), None);
}

#[test]
fn drop_channel_disconnects() {
    let mut p = pool();
    let (mut call, _) = p.begin::<u8>(true);
    p.step::<u8>(&mut call, Event::Connected(3));
    p.drop_channel();
    assert_eq!(p.get_channel(), None);
}

#[test]
fn transient_codes() {
    for c in [Code::Internal, Code::Unavailable, Code::Cancelled, Code::Unknown] {
        assert!(c.is_transient());
    }
    for c in [Code::InvalidArgument, Code::NotFound, Code::PermissionDenied, Code::Success] {
        assert!(!c.is_transient());
    }
    assert!(!Error::Truncated.is_transient());
}

#[test]
fn scheme_decides_tls() {
    assert_eq!(scheme_tls(Some("HTTPS"), false).unwrap(), true);
    assert_eq!(scheme_tls(Some("Http"), true).unwrap(), false);
    assert_eq!(scheme_tls(None, true).unwrap(), true);
    match scheme_tls(Some("FTP"), false) {
        Err(Error::ResponseError { status }) => {
            assert_eq!(status.code, Code::InvalidArgument);
            assert_eq!(status.message, "Invalid scheme `ftp`.");
        }
        _ => panic!("expected an invalid argument"),
    }
}

#[test]
fn pool_reads_scheme_of_its_address() {
    let c = InferenceServerClientConfig::from_uri("https://example.com:443").unwrap();
    let p: ChannelPool<u8> = ChannelPool::from_config(c);
    assert_eq!(p.connection_tls().unwrap(), true);
    let d: ChannelPool<u8> = ChannelPool::from_config(InferenceServerClientConfig::default());
    assert_eq!(d.connection_tls().unwrap(), false);
}

#[test]
fn config_defaults_and_builders() {
    let c = InferenceServerClientConfig::default();
    assert_eq!(c.uri.to_string(), "localhost:8001");
    assert_eq!(c.timeout, Duration::from_secs(30));
    assert_eq!(c.connect_timeout, Duration::from_secs(5));
    assert_eq!(c.keep_alive_timeout, Duration::from_secs(20));
    assert!(c.keep_alive_while_idle);
    assert!(!c.tls);
    assert_eq!(c.compression, None);
    let c = c
        .timeout(7u64)
        .tls(true)
        .connection_timeout(Duration::from_millis(250))
        .keep_alive_while_idle(false)
        .keep_alive_timeout(9u64)
        .compression(Some(CompressionEncoding::Gzip));
    assert_eq!(c.timeout, Duration::from_secs(7));
    assert!(c.tls);
    assert_eq!(c.connect_timeout, Duration::from_millis(250));
    assert!(!c.keep_alive_while_idle);
    assert_eq!(c.keep_alive_timeout, Duration::from_secs(9));
    assert_eq!(c.compression, Some(CompressionEncoding::Gzip));
}

#[test]
fn invalid_uri_is_an_error() {
    assert!(matches!(InferenceServerClientConfig::from_uri("not a uri"), Err(Error::InvalidUri(_))));
}

#[test]
fn endpoint_without_scheme_is_read_as_http() {
    let c = InferenceServerClientConfig::from_uri("localhost:8001").unwrap();
    let p: ChannelPool<u8> = ChannelPool::from_config(c);
    let u = p.endpoint_uri().unwrap().unwrap();
    assert_eq!(u.to_string(), "http://localhost:8001/");
    assert_eq!(u.scheme_str(), Some("http"));
}

#[test]
fn endpoint_with_scheme_is_kept() {
    let c = InferenceServerClientConfig::from_uri("https://example.com").unwrap();
    let p: ChannelPool<u8> = ChannelPool::from_config(c);
    assert!(p.endpoint_uri().unwrap().is_none());
}

#[test]
fn from_uri_keeps_the_parsed_address() {
    let c = InferenceServerClientConfig::from_uri("http://triton:8001").unwrap();
    assert_eq!(c.uri, "http://triton:8001".parse::<Uri>().unwrap());
    assert_eq!(c.timeout, Duration::from_secs(30));
    let d = InferenceServerClientConfig::default();
    assert_eq!(d.uri, "localhost:8001".parse::<Uri>().unwrap());
}
