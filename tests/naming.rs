use get_music::naming::free_name;

fn names(list: &[&str]) -> Vec<String> {
    list.iter().map(|s| s.to_string()).collect()
}

#[test]
fn free_name_plain_when_unused() {
    let ext = "m4a".to_string();
    assert_eq!(free_name(&"Night Set".to_string(), &ext, &names(&[])), "Night Set.m4a");
    assert_eq!(free_name(&"Night Set".to_string(), &ext, &names(&["Other.m4a"])), "Night Set.m4a");
}

#[test]
fn free_name_numbers_taken_names() {
    let ext = "m4a".to_string();
    let used = names(&["Mix.m4a", "Mix (1).m4a", "Mix (3).m4a"]);
    assert_eq!(free_name(&"Mix".to_string(), &ext, &used), "Mix (2).m4a");
}

#[test]
fn free_name_past_ten() {
    let ext = "m4a".to_string();
    let mut used = names(&["Mix.m4a"]);
    for i in 1..=10 {
        used.push(format!("Mix ({}).m4a", i));
    }
    assert_eq!(free_name(&"Mix".to_string(), &ext, &used), "Mix (11).m4a");
}
