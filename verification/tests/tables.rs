use another_world::data::{find_string, Tables, Text};

fn text(id: u16, s: &str) -> Text {
    Text { id, text: s.chars().collect() }
}

#[test]
fn tables_need_a_whole_font() {
    assert!(Tables::new(vec![0u8; 768], Vec::new(), Vec::new()).is_some());
    assert!(Tables::new(vec![0u8; 767], Vec::new(), Vec::new()).is_none());
    assert!(Tables::new(vec![0u8; 769], Vec::new(), Vec::new()).is_none());
    assert!(Tables::new(Vec::new(), Vec::new(), Vec::new()).is_none());
}

#[test]
fn tables_need_frequencies_that_can_be_played() {
    // A sound is stretched to four times its length at most: 11025 / 4.
    assert!(Tables::new(vec![0u8; 768], Vec::new(), vec![2206, 65535]).is_some());
    assert!(Tables::new(vec![0u8; 768], Vec::new(), vec![2206, 2205]).is_none());
    assert!(Tables::new(vec![0u8; 768], Vec::new(), vec![0]).is_none());
}

#[test]
fn find_string_takes_the_first_of_a_number() {
    let table = vec![text(1, "one"), text(0x190, "start"), text(1, "uno"), text(2, "")];
    assert_eq!(find_string(&table, 1), Some(0));
    assert_eq!(find_string(&table, 0x190), Some(1));
    assert_eq!(find_string(&table, 2), Some(3));
    assert_eq!(find_string(&table, 3), None);
    assert_eq!(find_string(&[], 1), None);
}
