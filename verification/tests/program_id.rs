use harness::program::ProgramId;
use std::str::FromStr;

#[test]
fn program_id_compatible_with_string() {
    // Parsing program id from str
    assert!("Using parse".parse::<ProgramId>().is_ok());
    assert!(ProgramId::from_str("Using from_str").is_ok());

    // Parsing str from program id
    let program_id = "Parsing str".parse::<ProgramId>().unwrap();
    _ = String::from(program_id);
}

#[test]
fn program_id_keeps_its_text() {
    let id = ProgramId::new("net.account.hello".to_string());
    assert_eq!(id.as_str(), "net.account.hello");
    assert_eq!(id.clone(), id);
    assert_eq!(String::from(id), "net.account.hello");
    let tried = ProgramId::try_from("x".to_string()).unwrap();
    assert_eq!(tried.as_str(), "x");
    assert_eq!("".parse::<ProgramId>().unwrap().as_str(), "");
}
