use thrussh_client::auth::MethodSet;

#[test]
fn listed_methods_are_found() {
    let m = MethodSet::from_list(b"password,publickey");
    assert!(m.password);
    assert!(m.publickey);
    assert!(!m.none);
    assert!(!m.hostbased);
    assert!(!m.keyboard_interactive);
}

#[test]
fn unknown_methods_are_skipped() {
    let m = MethodSet::from_list(b"gssapi-with-mic,keyboard-interactive,passwords");
    assert_eq!(
        m,
        MethodSet {
            none: false,
            password: false,
            publickey: false,
            hostbased: false,
            keyboard_interactive: true,
        }
    );
}

#[test]
fn empty_lists_name_no_method() {
    assert!(MethodSet::from_list(b"").is_empty());
    assert!(MethodSet::from_list(b",,").is_empty());
    assert_eq!(MethodSet::from_list(b""), MethodSet::empty());
    assert!(!MethodSet::all().is_empty());
}

#[test]
fn every_method_can_be_listed() {
    assert_eq!(
        MethodSet::from_list(b"none,password,publickey,hostbased,keyboard-interactive"),
        MethodSet::all()
    );
    assert_eq!(MethodSet::from_list(b",hostbased"), MethodSet::from_list(b"hostbased,"));
}
