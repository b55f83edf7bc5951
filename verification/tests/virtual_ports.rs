use rustcom::virtual_com::ComEmulator;
use rustcom::virtual_com::filter_com_names;
use rustcom::virtual_com::find_port_pairs;
use rustcom::virtual_com::flatten_pairs;
use rustcom::virtual_com::pair_adjacent;
use rustcom::virtual_com::sort_names;

fn names(v: &[&str]) -> Vec<String> {
    v.iter().map(|s| s.to_string()).collect()
}

#[test]
fn filter_keeps_com_prefixed_names_in_order() {
    let r = filter_com_names(&names(&["COM3", "ttyUSB0", "COM1", "com2", "CO"]));
    assert_eq!(r, names(&["COM3", "COM1"]));
}

#[test]
fn sort_is_lexicographic() {
    let r = sort_names(&names(&["COM3", "COM1", "COM2"]));
    assert_eq!(r, names(&["COM1", "COM2", "COM3"]));
    let r2 = sort_names(&names(&["COM2", "COM10"]));
    assert_eq!(r2, names(&["COM10", "COM2"]));
    let r3 = sort_names(&names(&[]));
    assert_eq!(r3, Vec::<String>::new());
}

#[test]
fn adjacent_names_pair_up() {
    let r = pair_adjacent(&names(&["a", "b", "c", "d", "e"]));
    assert_eq!(
        r,
        vec![
            ("a".to_string(), "b".to_string()),
            ("c".to_string(), "d".to_string()),
        ]
    );
    assert_eq!(pair_adjacent(&names(&["solo"])), Vec::<(String, String)>::new());
}

#[test]
fn port_pair_discovery() {
    let r = find_port_pairs(&names(&["COM9", "ttyS0", "COM2", "COM10", "COM1"]));
    assert_eq!(
        r,
        vec![
            ("COM1".to_string(), "COM10".to_string()),
            ("COM2".to_string(), "COM9".to_string()),
        ]
    );
    assert_eq!(find_port_pairs(&names(&["ttyS0"])), Vec::<(String, String)>::new());
}

#[test]
fn flatten_interleaves_pairs() {
    let pairs = vec![
        ("a".to_string(), "b".to_string()),
        ("c".to_string(), "d".to_string()),
    ];
    assert_eq!(flatten_pairs(&pairs), names(&["a", "b", "c", "d"]));
}

#[test]
fn emulator_settings() {
    let mut e = ComEmulator::new("COM99".to_string());
    assert_eq!(e.port_name(), "COM99");
    e.set_echo(false);
    e.set_delay(250);
    assert_eq!(e.port_name(), "COM99");
}
