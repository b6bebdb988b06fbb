use dynasty::addr::IpAddress;
use dynasty::resolver::{
    parse_output, plan_resolver, resolve_outcome, CommandOutcome, ResolveError,
};

#[test]
fn plans_echo_command() {
    let plan = plan_resolver("echo 203.0.113.5").unwrap();
    assert_eq!(plan.program, "echo");
    assert_eq!(plan.args, vec!["203.0.113.5".to_string()]);
}

#[test]
fn plans_quoted_words() {
    let plan = plan_resolver("curl -s 'https://example.test/ip'").unwrap();
    assert_eq!(plan.program, "curl");
    assert_eq!(
        plan.args,
        vec!["-s".to_string(), "https://example.test/ip".to_string()]
    );
}

#[test]
fn empty_command_is_rejected() {
    assert_eq!(plan_resolver("").unwrap_err(), ResolveError::EmptyCommand);
    assert_eq!(plan_resolver("   ").unwrap_err(), ResolveError::EmptyCommand);
}

#[test]
fn unclosed_quote_is_rejected() {
    assert_eq!(plan_resolver("echo 'oops").unwrap_err(), ResolveError::BadCommand);
}

#[test]
fn output_parses_trimmed_address() {
    assert_eq!(
        parse_output(b"203.0.113.5\n".to_vec()),
        Ok(IpAddress::V4(203, 0, 113, 5))
    );
    assert_eq!(
        parse_output(b"  \t2001:db8::1 \r\n".to_vec()),
        Ok(IpAddress::V6(0x2001, 0xdb8, 0, 0, 0, 0, 0, 1))
    );
}

#[test]
fn output_not_an_address_is_rejected() {
    assert_eq!(
        parse_output(b"not-an-ip\n".to_vec()),
        Err(ResolveError::UnparsableAddress)
    );
    assert_eq!(parse_output(Vec::new()), Err(ResolveError::UnparsableAddress));
}

#[test]
fn output_not_text_is_rejected() {
    assert_eq!(
        parse_output(vec![0xff, 0xfe, 0x31]),
        Err(ResolveError::InvalidOutput)
    );
}

#[test]
fn spawn_failure_surfaces() {
    assert_eq!(
        resolve_outcome(CommandOutcome::SpawnFailed),
        Err(ResolveError::SpawnFailed)
    );
}

#[test]
fn echo_resolves_end_to_end() {
    let plan = plan_resolver("echo 203.0.113.5").unwrap();
    let out = smol::block_on(async {
        smol::process::Command::new(&plan.program)
            .args(&plan.args)
            .output()
            .await
    });
    let outcome = match out {
        Ok(o) => CommandOutcome::Output(o.stdout),
        Err(_) => CommandOutcome::SpawnFailed,
    };
    assert_eq!(resolve_outcome(outcome), Ok(IpAddress::V4(203, 0, 113, 5)));
}

#[test]
fn echo_non_address_fails_end_to_end() {
    let plan = plan_resolver("echo not-an-ip").unwrap();
    let out = smol::block_on(async {
        smol::process::Command::new(&plan.program)
            .args(&plan.args)
            .output()
            .await
    });
    let outcome = match out {
        Ok(o) => CommandOutcome::Output(o.stdout),
        Err(_) => CommandOutcome::SpawnFailed,
    };
    assert_eq!(resolve_outcome(outcome), Err(ResolveError::UnparsableAddress));
}
