use dynasty::cfg::{Config, Daemon, Error as CfgError, Resolver};
use dynasty::conf::Conf;
use dynasty::err::{Error, Exit};
use dynasty::resolver::ResolveError;
use dynasty::sv::Error as SvError;

#[test]
fn merge_prefers_own_resolver() {
    let mut base = Config {
        daemon: None,
        resolver: Some(Resolver::new("echo 1.2.3.4".to_string())),
        services: Vec::new(),
    };
    let other = Config {
        daemon: Some(Daemon { timeout: 60 }),
        resolver: Some(Resolver::new("echo 5.6.7.8".to_string())),
        services: Vec::new(),
    };
    base.merge(other);
    assert_eq!(base.resolver.unwrap().as_str(), "echo 1.2.3.4");
    assert_eq!(base.daemon, Some(Daemon { timeout: 60 }));
}

#[test]
fn merge_takes_other_resolver_when_missing() {
    let mut base = Config { daemon: None, resolver: None, services: Vec::new() };
    let other = Config {
        daemon: None,
        resolver: Some(Resolver::new("echo 5.6.7.8".to_string())),
        services: Vec::new(),
    };
    base.merge(other);
    assert_eq!(base.resolver.unwrap().as_str(), "echo 5.6.7.8");
    assert_eq!(base.daemon, None);
}

#[test]
fn default_resolver_queries_opendns() {
    let r = Resolver::default();
    assert_eq!(r.as_str(), "dig @resolver4.opendns.com myip.opendns.com +short");
    assert_eq!(Conf::resolver(), "dig @resolver4.opendns.com myip.opendns.com +short");
}

#[test]
fn exit_codes_follow_the_error_class() {
    assert_eq!(Exit::Success.code(), 0);
    assert_eq!(Exit::Failure(Error::Config(CfgError::Read)).code(), 78);
    assert_eq!(Exit::Failure(Error::Config(CfgError::Parse)).code(), 78);
    assert_eq!(Exit::Failure(Error::Service(SvError::Transport(None))).code(), 76);
    assert_eq!(Exit::Failure(Error::Resolve(ResolveError::EmptyCommand)).code(), 1);
    assert_eq!(Exit::Failure(Error::Other).code(), 1);
}

#[test]
fn exit_from_error_is_failure() {
    let e = Exit::from(Error::Other);
    assert_eq!(e, Exit::Failure(Error::Other));
}
