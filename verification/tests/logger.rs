use udp_chat::server_utils::Logger;

#[test]
fn new_logger_is_empty() {
    let l = Logger::new();
    assert!(l.log.is_empty());
    assert!(!l.print);
}

#[test]
fn logln_starts_a_line_each_time() {
    let mut l = Logger::new();
    l.logln("one".to_string());
    l.logln("two".to_string());
    assert_eq!(l.log, vec!["one".to_string(), "two".to_string()]);
    assert!(!l.print);
}

#[test]
fn log_leaves_the_line_open() {
    let mut l = Logger::new();
    l.log("> ".to_string());
    assert!(l.print);
    assert_eq!(l.log, vec!["> ".to_string()]);
    l.logln("stop".to_string());
    assert!(!l.print);
    assert_eq!(l.log, vec!["> stop".to_string()]);
    l.log("a".to_string());
    l.log("b".to_string());
    l.log("c".to_string());
    assert_eq!(l.log, vec!["> stop".to_string(), "abc".to_string()]);
    assert!(l.print);
}

#[test]
fn add_to_last_extends_the_last_line() {
    let mut l = Logger { log: vec!["x".to_string(), "y".to_string()], print: false };
    l.add_to_last("z".to_string());
    assert_eq!(l.log, vec!["x".to_string(), "yz".to_string()]);
    assert!(!l.print);
}

#[test]
fn open_line_without_lines_starts_one() {
    let mut l = Logger { log: vec![], print: true };
    l.log("first".to_string());
    assert_eq!(l.log, vec!["first".to_string()]);
    assert!(l.print);
    let mut l = Logger { log: vec![], print: true };
    l.logln("first".to_string());
    assert_eq!(l.log, vec!["first".to_string()]);
    assert!(!l.print);
}

#[test]
fn mode_println_hands_back_what_to_print() {
    let mut l = Logger::new();
    assert_eq!(l.mode_println("shown".to_string(), true), Some("shown".to_string()));
    assert_eq!(l.mode_println("hidden".to_string(), false), None);
    assert_eq!(l.log, vec!["shown".to_string(), "hidden".to_string()]);
    assert!(!l.print);
}

#[test]
fn mode_print_hands_back_what_to_print() {
    let mut l = Logger::new();
    assert_eq!(l.mode_print("> ".to_string(), true), Some("> ".to_string()));
    assert!(l.print);
    assert_eq!(l.mode_print("more".to_string(), false), None);
    assert_eq!(l.mode_println(" end".to_string(), false), None);
    assert_eq!(l.log, vec!["> more end".to_string()]);
    assert!(!l.print);
}
