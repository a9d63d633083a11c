use process::identity::host_name_without_domain;
use process::new;

#[allow(non_snake_case)]
#[test]
fn currentProcessIsValid() {
    let mut buffer = b"db1.internal.example.com".to_vec();
    buffer.resize(64, 0u8);
    let p = process::new(0, 0, buffer, Some(b"/usr/bin/example".to_vec()), 4242);
    println!("{:?}", p);
    assert_eq!(p.hostName, "db1.internal.example.com".to_string());
    assert_eq!(p.hostNameWithoutDomain, "db1".to_string());
    assert_eq!(p.programName, "example".to_string());
    assert_eq!(p.pid, 4242);
    assert!(p.hostName.starts_with(p.hostNameWithoutDomain.as_str()));
}

#[test]
fn host_name_strips_at_first_dot() {
    let r = host_name_without_domain("db1.internal.example.com");
    assert_eq!(r, "db1".to_string());
}

#[test]
fn leading_dot_strips_to_empty() {
    let r = host_name_without_domain(".local");
    assert_eq!(r, "".to_string());
}

#[test]
fn no_dot_strips_to_itself() {
    let r = host_name_without_domain("workstation");
    assert_eq!(r, "workstation".to_string());
}

#[test]
fn resolver_error_degrades_to_sentinel() {
    let p = new(-1, 42, vec![0u8; 16], None, 7);
    assert_eq!(p.hostName, "(unknown)".to_string());
    assert_eq!(p.hostNameWithoutDomain, "(unknown)".to_string());
    assert_eq!(p.programName, "(unknown)".to_string());
    assert_eq!(p.pid, 7);
}

#[test]
fn unrecognized_code_degrades_to_sentinel() {
    let p = new(23, 0, vec![0u8; 16], None, 9);
    assert_eq!(p.hostName, "(unknown)".to_string());
    assert_eq!(p.hostNameWithoutDomain, "(unknown)".to_string());
}

#[test]
fn sequential_builds_are_identical() {
    let mut buffer = b"node7.lan".to_vec();
    buffer.resize(32, 0u8);
    let first = new(0, 0, buffer.clone(), Some(b"daemon".to_vec()), 100);
    let second = new(0, 0, buffer, Some(b"daemon".to_vec()), 100);
    assert_eq!(first.hostName, second.hostName);
    assert_eq!(first.hostNameWithoutDomain, second.hostNameWithoutDomain);
    assert_eq!(first.programName, second.programName);
    assert_eq!(first.pid, second.pid);
}

#[test]
fn pid_is_carried_verbatim() {
    let p = new(0, 0, b"box".to_vec(), None, 31337);
    assert_eq!(p.pid, 31337);
}
